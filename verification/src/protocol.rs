//! The IPC data model and the dispatch rules.
//!
//! One exchange with the window manager carries one `Request` out and one
//! `Result<Response, String>` back. The wire protocol answers both questions
//! and commands through the same success channel; [`query`] and [`run_action`]
//! restore the distinction: a query's payload is data (a bare acknowledgement
//! means "no data"), while an action's only acceptable success payload is the
//! bare acknowledgement.

use vstd::prelude::*;

verus! {

/// One window as listed by the manager: a stable numeric id and an
/// optional title.
#[derive(Debug, Clone, PartialEq, Eq)]
pub struct WindowInfo {
    pub id: u64,
    pub title: Option<String>,
}

/// One workspace as listed by the manager: a stable numeric id, the display
/// index on its output, an optional name, and whether it is the focused one.
#[derive(Debug, Clone, PartialEq, Eq)]
pub struct WorkspaceInfo {
    pub id: u64,
    pub idx: u8,
    pub name: Option<String>,
    pub is_focused: bool,
}

/// One output as listed by the manager, identified by its name.
#[derive(Debug, Clone, PartialEq, Eq)]
pub struct OutputInfo {
    pub name: String,
    pub make: String,
    pub model: String,
    pub serial: Option<String>,
}

/// A way to point at a workspace in an action: by stable id or by index.
/// Wherever an existing workspace's id is known, the id form is used.
#[derive(Debug, Clone, PartialEq, Eq)]
pub enum WorkspaceReference {
    Id(u64),
    Index(u8),
}

/// A mutating intent sent to the window manager.
#[derive(Debug, Clone, PartialEq, Eq)]
pub enum ActionPayload {
    FocusWindow { id: u64 },
    MoveWindowToWorkspace { window_id: Option<u64>, reference: WorkspaceReference, focus: bool },
    FocusWorkspace { reference: WorkspaceReference },
    MoveWorkspaceToMonitor { output: String, reference: Option<WorkspaceReference> },
    SetWorkspaceName { name: String, workspace: Option<WorkspaceReference> },
}

/// One request to the window manager: three read-only queries and the
/// mutating action carrier.
#[derive(Debug, Clone, PartialEq, Eq)]
pub enum Request {
    Outputs,
    Windows,
    Workspaces,
    Action(ActionPayload),
}

/// A successful response from the window manager. `Handled` is the bare
/// acknowledgement that carries no data.
#[derive(Debug, Clone, PartialEq, Eq)]
pub enum Response {
    Handled,
    Outputs(Vec<OutputInfo>),
    Windows(Vec<WindowInfo>),
    Workspaces(Vec<WorkspaceInfo>),
}

/// An operation-level failure.
#[derive(Debug, Clone, PartialEq, Eq)]
pub enum OpError {
    /// The daemon reported an error, or an action came back with data.
    Unhandled { err: String },
    /// The picked line does not parse as the expected identifier.
    SelectionParse,
    /// The last-workspace fallback found an empty workspace listing.
    NoWorkspaces,
    /// No workspace in the listing is focused.
    NoFocusedWorkspace,
}

/// The description carried by the protocol-violation error when an action
/// comes back with a data payload instead of the bare acknowledgement.
pub open spec fn payload_note(resp: Response) -> Seq<char> {
    match resp {
        Response::Handled => "Got result for Handled"@,
        Response::Outputs(_) => "Got result for Outputs"@,
        Response::Windows(_) => "Got result for Windows"@,
        Response::Workspaces(_) => "Got result for Workspaces"@,
    }
}

fn describe_payload(resp: &Response) -> (r: String)
    ensures
        r@ == payload_note(*resp),
{
    match resp {
        Response::Handled => "Got result for Handled".to_owned(),
        Response::Outputs(_) => "Got result for Outputs".to_owned(),
        Response::Windows(_) => "Got result for Windows".to_owned(),
        Response::Workspaces(_) => "Got result for Workspaces".to_owned(),
    }
}

/// Classify one exchange's outcome for a query: the bare acknowledgement
/// means no data, any other success payload is the data, and a daemon error
/// becomes the protocol-violation error.
pub fn query(reply: Result<Response, String>) -> (r: Result<Option<Response>, OpError>)
    ensures
        match reply {
            Ok(resp) => if resp is Handled {
                r == Ok::<Option<Response>, OpError>(None)
            } else {
                r == Ok::<Option<Response>, OpError>(Some(resp))
            },
            Err(err) => r == Err::<Option<Response>, OpError>(OpError::Unhandled { err }),
        },
{
    match reply {
        Ok(resp) => match resp {
            Response::Handled => Ok(None),
            other => Ok(Some(other)),
        },
        Err(err) => Err(OpError::Unhandled { err }),
    }
}

/// Classify one exchange's outcome for an action: it succeeds exactly when
/// the success payload is the bare acknowledgement; data coming back from an
/// action is a protocol violation.
pub fn run_action(reply: Result<Response, String>) -> (r: Result<(), OpError>)
    ensures
        r is Ok <==> reply == Ok::<Response, String>(Response::Handled),
        match reply {
            Ok(resp) => resp is Handled || (r matches Err(OpError::Unhandled { err }) && err@
                == payload_note(resp)),
            Err(err) => r == Err::<(), OpError>(OpError::Unhandled { err }),
        },
{
    match reply {
        Ok(resp) => match resp {
            Response::Handled => Ok(()),
            other => Err(OpError::Unhandled { err: describe_payload(&other) }),
        },
        Err(err) => Err(OpError::Unhandled { err }),
    }
}

} // verus!
