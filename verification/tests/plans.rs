use niri_action::ops::{
    get_current_workspace, last_workspace_id, plan_focus_container, plan_focus_workspace,
    plan_move_to_workspace, plan_move_workspace_to_output, plan_steal_container,
};
use niri_action::protocol::{ActionPayload, OpError, WorkspaceInfo, WorkspaceReference};

fn ws(id: u64, idx: u8, name: Option<&str>, is_focused: bool) -> WorkspaceInfo {
    WorkspaceInfo { id, idx, name: name.map(|n| n.to_string()), is_focused }
}

#[test]
fn focus_container_plan() {
    assert_eq!(
        plan_focus_container("42: Term"),
        Ok(vec![ActionPayload::FocusWindow { id: 42 }])
    );
    assert_eq!(plan_focus_container("nope"), Err(OpError::SelectionParse));
}

#[test]
fn steal_container_plan() {
    assert_eq!(
        plan_steal_container(7, "42: Term"),
        Ok(vec![ActionPayload::MoveWindowToWorkspace {
            window_id: Some(42),
            reference: WorkspaceReference::Id(7),
            focus: false,
        }])
    );
}

#[test]
fn move_to_workspace_plan() {
    assert_eq!(
        plan_move_to_workspace("3: mail (2)"),
        Ok(vec![ActionPayload::MoveWindowToWorkspace {
            window_id: None,
            reference: WorkspaceReference::Id(3),
            focus: false,
        }])
    );
}

#[test]
fn move_workspace_to_output_plan() {
    assert_eq!(
        plan_move_workspace_to_output("eDP-1: ACME Panel <unknown>"),
        Ok(vec![ActionPayload::MoveWorkspaceToMonitor {
            output: "eDP-1".to_string(),
            reference: None,
        }])
    );
}

#[test]
fn focus_workspace_by_listed_id() {
    let spaces = vec![ws(3, 0, Some("mail"), true), ws(5, 1, Some("dev"), false)];
    assert_eq!(
        plan_focus_workspace(&spaces, "3: mail"),
        Ok(vec![ActionPayload::FocusWorkspace { reference: WorkspaceReference::Id(3) }])
    );
}

#[test]
fn focus_workspace_free_text_focuses_last_then_renames() {
    let spaces = vec![
        ws(3, 0, Some("mail"), true),
        ws(9, 2, Some("web"), false),
        ws(5, 1, Some("dev"), false),
    ];
    assert_eq!(
        plan_focus_workspace(&spaces, "scratch"),
        Ok(vec![
            ActionPayload::FocusWorkspace { reference: WorkspaceReference::Id(9) },
            ActionPayload::SetWorkspaceName {
                name: "scratch".to_string(),
                workspace: Some(WorkspaceReference::Id(9)),
            },
        ])
    );
}

#[test]
fn empty_pick_plans_no_action() {
    let spaces = vec![ws(3, 0, Some("mail"), true)];
    assert_eq!(plan_focus_container(""), Ok(vec![]));
    assert_eq!(plan_steal_container(7, ""), Ok(vec![]));
    assert_eq!(plan_focus_workspace(&spaces, ""), Ok(vec![]));
    assert_eq!(plan_move_to_workspace(""), Ok(vec![]));
    assert_eq!(plan_move_workspace_to_output(""), Ok(vec![]));
}

#[test]
fn current_workspace_is_first_focused() {
    let spaces = vec![ws(3, 0, None, false), ws(7, 1, None, true), ws(9, 2, None, false)];
    assert_eq!(get_current_workspace(&spaces), Ok(7));
}

#[test]
fn current_workspace_with_none_focused_is_an_error() {
    let spaces = vec![ws(3, 0, None, false)];
    assert_eq!(get_current_workspace(&spaces), Err(OpError::NoFocusedWorkspace));
}

#[test]
fn zero_workspaces_fail_both_lookups() {
    let spaces: Vec<WorkspaceInfo> = vec![];
    assert_eq!(get_current_workspace(&spaces), Err(OpError::NoFocusedWorkspace));
    assert_eq!(last_workspace_id(&spaces), Err(OpError::NoWorkspaces));
    assert_eq!(plan_focus_workspace(&spaces, "scratch"), Err(OpError::NoWorkspaces));
}

#[test]
fn last_workspace_is_highest_index() {
    let spaces = vec![ws(3, 1, None, false), ws(8, 4, None, false), ws(5, 2, None, true)];
    assert_eq!(last_workspace_id(&spaces), Ok(8));
}
