use niri_action::listing::{
    format_output_line, format_outputs, format_window_line, format_windows,
    format_workspace_line, format_workspaces, outputs_of_response, sort_workspaces,
    windows_of_response, workspaces_of_response,
};
use niri_action::protocol::{OutputInfo, Response, WindowInfo, WorkspaceInfo};

fn ws(id: u64, idx: u8, name: Option<&str>, is_focused: bool) -> WorkspaceInfo {
    WorkspaceInfo { id, idx, name: name.map(|n| n.to_string()), is_focused }
}

#[test]
fn window_line_with_title() {
    let w = WindowInfo { id: 7, title: Some("Firefox".to_string()) };
    assert_eq!(format_window_line(&w), "7: Firefox");
}

#[test]
fn window_line_without_title() {
    let w = WindowInfo { id: 7, title: None };
    assert_eq!(format_window_line(&w), "7: Unknown");
}

#[test]
fn workspace_line_named() {
    assert_eq!(format_workspace_line(&ws(3, 2, Some("mail"), false)), "3: mail (2)");
}

#[test]
fn workspace_line_unnamed() {
    assert_eq!(format_workspace_line(&ws(3, 2, None, false)), "3: <unnamed> (2)");
}

#[test]
fn output_line_with_serial() {
    let o = OutputInfo {
        name: "eDP-1".to_string(),
        make: "ACME".to_string(),
        model: "Panel".to_string(),
        serial: Some("12345".to_string()),
    };
    assert_eq!(format_output_line(&o), "eDP-1: ACME Panel 12345");
}

#[test]
fn output_line_without_serial() {
    let o = OutputInfo {
        name: "eDP-1".to_string(),
        make: "ACME".to_string(),
        model: "Panel".to_string(),
        serial: None,
    };
    assert_eq!(format_output_line(&o), "eDP-1: ACME Panel <unknown>");
}

#[test]
fn workspaces_sorted_by_index_before_formatting() {
    let spaces = vec![
        ws(10, 2, Some("two"), false),
        ws(11, 0, Some("zero"), true),
        ws(12, 1, Some("one"), false),
    ];
    let sorted = sort_workspaces(spaces);
    let lines = format_workspaces(&sorted);
    assert_eq!(lines, vec!["11: zero (0)", "12: one (1)", "10: two (2)"]);
}

#[test]
fn sort_keeps_every_workspace() {
    let spaces = vec![ws(1, 5, None, false), ws(2, 5, None, false), ws(3, 0, None, true)];
    let sorted = sort_workspaces(spaces.clone());
    assert_eq!(sorted.len(), 3);
    assert_eq!(sorted[0], spaces[2]);
    for w in &spaces {
        assert!(sorted.contains(w));
    }
}

#[test]
fn format_windows_keeps_listing_order() {
    let windows = vec![
        WindowInfo { id: 2, title: Some("b".to_string()) },
        WindowInfo { id: 1, title: Some("a".to_string()) },
    ];
    assert_eq!(format_windows(&windows), vec!["2: b", "1: a"]);
}

#[test]
fn format_outputs_keeps_listing_order() {
    let outputs = vec![
        OutputInfo {
            name: "DP-2".to_string(),
            make: "m".to_string(),
            model: "n".to_string(),
            serial: None,
        },
        OutputInfo {
            name: "DP-1".to_string(),
            make: "m".to_string(),
            model: "n".to_string(),
            serial: None,
        },
    ];
    assert_eq!(format_outputs(&outputs), vec!["DP-2: m n <unknown>", "DP-1: m n <unknown>"]);
}

#[test]
fn extraction_takes_matching_payload() {
    let windows = vec![WindowInfo { id: 1, title: None }];
    assert_eq!(windows_of_response(Some(Response::Windows(windows.clone()))), windows);
    let spaces = vec![ws(1, 0, None, true)];
    assert_eq!(workspaces_of_response(Some(Response::Workspaces(spaces.clone()))), spaces);
    let outputs = vec![OutputInfo {
        name: "DP-1".to_string(),
        make: "m".to_string(),
        model: "n".to_string(),
        serial: None,
    }];
    assert_eq!(outputs_of_response(Some(Response::Outputs(outputs.clone()))), outputs);
}

#[test]
fn extraction_of_other_payload_lists_nothing() {
    assert_eq!(windows_of_response(None), vec![]);
    assert_eq!(windows_of_response(Some(Response::Workspaces(vec![]))), vec![]);
    assert_eq!(workspaces_of_response(None), vec![]);
    assert_eq!(workspaces_of_response(Some(Response::Handled)), vec![]);
    assert_eq!(outputs_of_response(Some(Response::Windows(vec![]))), vec![]);
}
