//! Per-operation pipelines: from query results and one line of picker output
//! to the actions the operation issues.
//!
//! Each operation is query, format, pick, resolve, act, strictly in that
//! order. The planners here are the resolve-and-decide step: they take what
//! the queries returned and the picked line, and return the exact sequence of
//! actions to send (empty when the user cancelled). The caller performs each
//! action over the session, in order, stopping at the first failure.

use vstd::prelude::*;

verus! {

use vstd::string::StrSliceExecFns;
use crate::protocol::ActionPayload;
use crate::protocol::OpError;
use crate::protocol::WorkspaceInfo;
use crate::protocol::WorkspaceReference;
use crate::select::has_colon;
use crate::select::resolve_id_or_entry;
use crate::select::resolve_strict_id;
use crate::select::sel_prefix;
use crate::select::strict_id_of_line;
use crate::select::Selection;

/// Index of the first focused workspace in `s`, or `s.len()` when none is.
pub open spec fn first_focused_index(s: Seq<WorkspaceInfo>) -> int
    decreases s.len(),
{
    if s.len() == 0 {
        0
    } else if s[0].is_focused {
        0
    } else {
        1 + first_focused_index(s.skip(1))
    }
}

/// `first_focused_index` points at the first focused workspace: nothing
/// before it is focused, and it stays inside the listing exactly when some
/// workspace is focused at all.
pub proof fn lemma_first_focused_props(s: Seq<WorkspaceInfo>)
    ensures
        0 <= first_focused_index(s) <= s.len(),
        forall|j: int| 0 <= j < first_focused_index(s) ==> !(#[trigger] s[j].is_focused),
        first_focused_index(s) < s.len() ==> s[first_focused_index(s)].is_focused,
        (exists|i: int| 0 <= i < s.len() && (#[trigger] s[i].is_focused)) <==> first_focused_index(
            s,
        ) < s.len(),
    decreases s.len(),
{
    if s.len() == 0 {
    } else if s[0].is_focused {
    } else {
        lemma_first_focused_props(s.skip(1));
        let f = first_focused_index(s);
        assert forall|j: int| 0 <= j < f implies !(#[trigger] s[j].is_focused) by {
            if j > 0 {
                assert(s.skip(1)[j - 1] == s[j]);
            }
        }
        if f < s.len() {
            assert(s.skip(1)[f - 1] == s[f]);
        }
        if exists|i: int| 0 <= i < s.len() && (#[trigger] s[i].is_focused) {
            let w = choose|i: int| 0 <= i < s.len() && (#[trigger] s[i].is_focused);
            assert(w > 0);
            assert(s.skip(1)[w - 1].is_focused);
        }
        if exists|i: int| 0 <= i < s.skip(1).len() && (#[trigger] s.skip(1)[i].is_focused) {
            let w = choose|i: int| 0 <= i < s.skip(1).len() && (#[trigger] s.skip(1)[i].is_focused);
            assert(s[w + 1].is_focused);
        }
    }
}

proof fn lemma_first_focused_at(s: Seq<WorkspaceInfo>, i: int)
    requires
        0 <= i <= s.len(),
        forall|j: int| 0 <= j < i ==> !(#[trigger] s[j].is_focused),
        i == s.len() || s[i].is_focused,
    ensures
        first_focused_index(s) == i,
    decreases s.len(),
{
    if s.len() == 0 {
    } else if s[0].is_focused {
        assert(i == 0);
    } else {
        assert(i >= 1);
        assert forall|j: int| 0 <= j < i - 1 implies !(#[trigger] s.skip(1)[j].is_focused) by {
            assert(s.skip(1)[j] == s[j + 1]);
        }
        if i < s.len() {
            assert(s.skip(1)[i - 1] == s[i]);
        }
        lemma_first_focused_at(s.skip(1), i - 1);
    }
}

/// The id of the first focused workspace in the listing. A listing in which
/// no workspace is focused breaks a compositor invariant: that is an error,
/// never a silent default.
pub fn get_current_workspace(v: &Vec<WorkspaceInfo>) -> (r: Result<u64, OpError>)
    ensures
        first_focused_index(v@) < v@.len() ==> r == Ok::<u64, OpError>(
            v@[first_focused_index(v@)].id,
        ),
        first_focused_index(v@) == v@.len() ==> r == Err::<u64, OpError>(
            OpError::NoFocusedWorkspace,
        ),
{
    proof {
        lemma_first_focused_props(v@);
    }
    let mut i: usize = 0;
    while i < v.len()
        invariant
            0 <= i <= v@.len(),
            forall|j: int| 0 <= j < i ==> !(#[trigger] v@[j].is_focused),
        decreases v@.len() - i,
    {
        if v[i].is_focused {
            proof {
                lemma_first_focused_at(v@, i as int);
            }
            return Ok(v[i].id);
        }
        i = i + 1;
    }
    proof {
        lemma_first_focused_at(v@, v@.len() as int);
    }
    Err(OpError::NoFocusedWorkspace)
}

/// Position `k` holds a workspace of maximal index in the listing.
pub open spec fn is_max_idx_at(s: Seq<WorkspaceInfo>, k: int) -> bool {
    &&& 0 <= k < s.len()
    &&& forall|j: int| 0 <= j < s.len() ==> #[trigger] s[j].idx <= s[k].idx
}

/// Position `k` holds the last workspace of maximal index: the entry the
/// sorted listing shows last. There is at most one such position.
pub open spec fn is_last_max_idx_at(s: Seq<WorkspaceInfo>, k: int) -> bool {
    &&& is_max_idx_at(s, k)
    &&& forall|j: int| k < j < s.len() ==> #[trigger] s[j].idx < s[k].idx
}

/// In a listing sorted ascending by index, the last workspace of maximal
/// index is the last entry, and no other position qualifies.
pub proof fn lemma_last_max_of_sorted(s: Seq<WorkspaceInfo>)
    requires
        crate::listing::sorted_by_idx(s),
        s.len() > 0,
    ensures
        is_last_max_idx_at(s, s.len() - 1),
        forall|k: int| #[trigger] is_last_max_idx_at(s, k) ==> k == s.len() - 1,
{
    assert forall|j: int| 0 <= j < s.len() implies #[trigger] s[j].idx <= s[s.len() - 1].idx by {
        if j < s.len() - 1 {
            assert(s[j].idx <= s[s.len() - 1].idx);
        }
    }
    assert forall|k: int| #[trigger] is_last_max_idx_at(s, k) implies k == s.len() - 1 by {
        if k < s.len() - 1 {
            assert(s[s.len() - 1].idx < s[k].idx);
            assert(s[k].idx <= s[s.len() - 1].idx);
        }
    }
}

/// The id of a highest-index workspace: the one the new-workspace fallback
/// focuses and renames. An empty listing breaks a compositor invariant:
/// that is an error, never a silent default.
pub fn last_workspace_id(v: &Vec<WorkspaceInfo>) -> (r: Result<u64, OpError>)
    ensures
        v@.len() == 0 ==> r == Err::<u64, OpError>(OpError::NoWorkspaces),
        v@.len() > 0 ==> match r {
            Ok(id) => exists|k: int| #[trigger] is_last_max_idx_at(v@, k) && v@[k].id == id,
            Err(_) => false,
        },
{
    if v.len() == 0 {
        return Err(OpError::NoWorkspaces);
    }
    let mut best_id: u64 = v[0].id;
    let mut best_idx: u8 = v[0].idx;
    let ghost mut best_k: int = 0;
    let mut i: usize = 1;
    while i < v.len()
        invariant
            1 <= i <= v@.len(),
            0 <= best_k < i,
            v@[best_k].id == best_id,
            v@[best_k].idx == best_idx,
            forall|j: int| 0 <= j < i ==> #[trigger] v@[j].idx <= best_idx,
            forall|j: int| best_k < j < i ==> #[trigger] v@[j].idx < best_idx,
        decreases v@.len() - i,
    {
        if v[i].idx >= best_idx {
            best_id = v[i].id;
            best_idx = v[i].idx;
            proof {
                best_k = i as int;
            }
        }
        i = i + 1;
    }
    proof {
        assert(is_last_max_idx_at(v@, best_k));
    }
    Ok(best_id)
}

/// Plan the focus-container operation: focus the picked window by id.
pub fn plan_focus_container(line: &str) -> (r: Result<Vec<ActionPayload>, OpError>)
    ensures
        line@.len() == 0 ==> match r {
            Ok(acts) => acts@ == Seq::<ActionPayload>::empty(),
            Err(_) => false,
        },
        line@.len() > 0 ==> match strict_id_of_line(line@) {
            Some(id) => match r {
                Ok(acts) => acts@ == seq![ActionPayload::FocusWindow { id }],
                Err(_) => false,
            },
            None => r == Err::<Vec<ActionPayload>, OpError>(OpError::SelectionParse),
        },
{
    match resolve_strict_id(line) {
        Ok(None) => Ok(Vec::new()),
        Ok(Some(id)) => {
            let mut acts: Vec<ActionPayload> = Vec::new();
            acts.push(ActionPayload::FocusWindow { id });
            proof {
                assert(acts@ =~= seq![ActionPayload::FocusWindow { id }]);
            }
            Ok(acts)
        },
        Err(e) => Err(e),
    }
}

/// Plan the steal-container operation: move the picked window into the
/// current workspace, without focusing it.
pub fn plan_steal_container(current_ws_id: u64, line: &str) -> (r: Result<
    Vec<ActionPayload>,
    OpError,
>)
    ensures
        line@.len() == 0 ==> match r {
            Ok(acts) => acts@ == Seq::<ActionPayload>::empty(),
            Err(_) => false,
        },
        line@.len() > 0 ==> match strict_id_of_line(line@) {
            Some(id) => match r {
                Ok(acts) => acts@ == seq![
                    ActionPayload::MoveWindowToWorkspace {
                        window_id: Some(id),
                        reference: WorkspaceReference::Id(current_ws_id),
                        focus: false,
                    },
                ],
                Err(_) => false,
            },
            None => r == Err::<Vec<ActionPayload>, OpError>(OpError::SelectionParse),
        },
{
    match resolve_strict_id(line) {
        Ok(None) => Ok(Vec::new()),
        Ok(Some(id)) => {
            let mut acts: Vec<ActionPayload> = Vec::new();
            acts.push(
                ActionPayload::MoveWindowToWorkspace {
                    window_id: Some(id),
                    reference: WorkspaceReference::Id(current_ws_id),
                    focus: false,
                },
            );
            proof {
                assert(acts@ =~= seq![
                    ActionPayload::MoveWindowToWorkspace {
                        window_id: Some(id),
                        reference: WorkspaceReference::Id(current_ws_id),
                        focus: false,
                    },
                ]);
            }
            Ok(acts)
        },
        Err(e) => Err(e),
    }
}

/// Plan the move-to-workspace operation: move the focused window to the
/// picked workspace, without focusing it.
pub fn plan_move_to_workspace(line: &str) -> (r: Result<Vec<ActionPayload>, OpError>)
    ensures
        line@.len() == 0 ==> match r {
            Ok(acts) => acts@ == Seq::<ActionPayload>::empty(),
            Err(_) => false,
        },
        line@.len() > 0 ==> match strict_id_of_line(line@) {
            Some(id) => match r {
                Ok(acts) => acts@ == seq![
                    ActionPayload::MoveWindowToWorkspace {
                        window_id: None,
                        reference: WorkspaceReference::Id(id),
                        focus: false,
                    },
                ],
                Err(_) => false,
            },
            None => r == Err::<Vec<ActionPayload>, OpError>(OpError::SelectionParse),
        },
{
    match resolve_strict_id(line) {
        Ok(None) => Ok(Vec::new()),
        Ok(Some(id)) => {
            let mut acts: Vec<ActionPayload> = Vec::new();
            acts.push(
                ActionPayload::MoveWindowToWorkspace {
                    window_id: None,
                    reference: WorkspaceReference::Id(id),
                    focus: false,
                },
            );
            proof {
                assert(acts@ =~= seq![
                    ActionPayload::MoveWindowToWorkspace {
                        window_id: None,
                        reference: WorkspaceReference::Id(id),
                        focus: false,
                    },
                ]);
            }
            Ok(acts)
        },
        Err(e) => Err(e),
    }
}

/// Plan the move-workspace-to-output operation: the identifier here is the
/// picked output's name, not a numeric id.
pub fn plan_move_workspace_to_output(line: &str) -> (r: Result<Vec<ActionPayload>, OpError>)
    ensures
        line@.len() == 0 ==> match r {
            Ok(acts) => acts@ == Seq::<ActionPayload>::empty(),
            Err(_) => false,
        },
        line@.len() > 0 ==> match r {
            Ok(acts) => acts@.len() == 1 && match acts@[0] {
                ActionPayload::MoveWorkspaceToMonitor { output, reference } => output@
                    == sel_prefix(line@) && reference is None,
                _ => false,
            },
            Err(_) => false,
        },
{
    if line.unicode_len() == 0 {
        return Ok(Vec::new());
    }
    let output = crate::select::fuzzel_get_selection_id(line);
    let mut acts: Vec<ActionPayload> = Vec::new();
    acts.push(ActionPayload::MoveWorkspaceToMonitor { output, reference: None });
    Ok(acts)
}

/// The new-workspace fallback: focus the workspace with this id, then rename
/// it to the typed text. Two actions, in exactly this order; if the first
/// succeeds and the second fails, the session is left focused on the right
/// workspace under its stale name, and nothing rolls that back.
pub open spec fn focus_then_rename(acts: Seq<ActionPayload>, id: u64, name: Seq<char>) -> bool {
    &&& acts.len() == 2
    &&& acts[0] == ActionPayload::FocusWorkspace { reference: WorkspaceReference::Id(id) }
    &&& match acts[1] {
        ActionPayload::SetWorkspaceName { name: n, workspace } => n@ == name && workspace == Some(
            WorkspaceReference::Id(id),
        ),
        _ => false,
    }
}

/// Plan the focus-workspace operation, in id-or-new-entry mode: a line with
/// a `':'` references a listed workspace and focuses it by id; a line
/// without one is a workspace name that is not in the listing, and focuses
/// the highest-index workspace, then renames it to the typed text.
pub fn plan_focus_workspace(workspaces: &Vec<WorkspaceInfo>, line: &str) -> (r: Result<
    Vec<ActionPayload>,
    OpError,
>)
    ensures
        line@.len() == 0 ==> match r {
            Ok(acts) => acts@ == Seq::<ActionPayload>::empty(),
            Err(_) => false,
        },
        line@.len() > 0 && has_colon(line@) ==> match strict_id_of_line(line@) {
            Some(id) => match r {
                Ok(acts) => acts@ == seq![
                    ActionPayload::FocusWorkspace { reference: WorkspaceReference::Id(id) },
                ],
                Err(_) => false,
            },
            None => r == Err::<Vec<ActionPayload>, OpError>(OpError::SelectionParse),
        },
        line@.len() > 0 && !has_colon(line@) && workspaces@.len() == 0 ==> r == Err::<
            Vec<ActionPayload>,
            OpError,
        >(OpError::NoWorkspaces),
        line@.len() > 0 && !has_colon(line@) && workspaces@.len() > 0 ==> match r {
            Ok(acts) => exists|k: int| #[trigger] is_last_max_idx_at(workspaces@, k)
                && focus_then_rename(acts@, workspaces@[k].id, line@),
            Err(_) => false,
        },
{
    match resolve_id_or_entry(line) {
        Ok(Selection::NoSelection) => Ok(Vec::new()),
        Ok(Selection::Identified(id)) => {
            let mut acts: Vec<ActionPayload> = Vec::new();
            acts.push(ActionPayload::FocusWorkspace { reference: WorkspaceReference::Id(id) });
            proof {
                assert(acts@ =~= seq![
                    ActionPayload::FocusWorkspace { reference: WorkspaceReference::Id(id) },
                ]);
            }
            Ok(acts)
        },
        Ok(Selection::FreeText(name)) => match last_workspace_id(workspaces) {
            Ok(lid) => {
                let mut acts: Vec<ActionPayload> = Vec::new();
                acts.push(
                    ActionPayload::FocusWorkspace { reference: WorkspaceReference::Id(lid) },
                );
                acts.push(
                    ActionPayload::SetWorkspaceName {
                        name,
                        workspace: Some(WorkspaceReference::Id(lid)),
                    },
                );
                Ok(acts)
            },
            Err(e) => Err(e),
        },
        Err(e) => Err(e),
    }
}

} // verus!
