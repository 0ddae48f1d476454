use niri_action::digits::{parse_u64, u64_to_dec};
use niri_action::listing::{format_output_line, format_window_line, format_workspace_line};
use niri_action::protocol::{OpError, OutputInfo, WindowInfo, WorkspaceInfo};
use niri_action::select::{
    fuzzel_get_selection_id, fuzzel_get_selection_id_or_entry, resolve_id_or_entry,
    resolve_strict_id, Selection,
};

#[test]
fn u64_to_dec_exact() {
    assert_eq!(u64_to_dec(0), "0");
    assert_eq!(u64_to_dec(7), "7");
    assert_eq!(u64_to_dec(42), "42");
    assert_eq!(u64_to_dec(1234567890), "1234567890");
    assert_eq!(u64_to_dec(u64::MAX), "18446744073709551615");
}

#[test]
fn parse_u64_exact() {
    assert_eq!(parse_u64("0"), Some(0));
    assert_eq!(parse_u64("42"), Some(42));
    assert_eq!(parse_u64("007"), Some(7));
    assert_eq!(parse_u64("18446744073709551615"), Some(u64::MAX));
}

#[test]
fn parse_u64_rejects_overflow() {
    assert_eq!(parse_u64("18446744073709551616"), None);
    assert_eq!(parse_u64("99999999999999999999"), None);
}

#[test]
fn parse_u64_rejects_non_digits() {
    assert_eq!(parse_u64(""), None);
    assert_eq!(parse_u64("12a"), None);
    assert_eq!(parse_u64("-3"), None);
    assert_eq!(parse_u64(" 3"), None);
}

#[test]
fn selection_id_takes_prefix_before_first_colon() {
    assert_eq!(fuzzel_get_selection_id("3: mail (2)"), "3");
    assert_eq!(fuzzel_get_selection_id("eDP-1: ACME Panel 12345"), "eDP-1");
    assert_eq!(fuzzel_get_selection_id("42: title: with colon"), "42");
    assert_eq!(fuzzel_get_selection_id("no colon here"), "no colon here");
    assert_eq!(fuzzel_get_selection_id(""), "");
}

#[test]
fn selection_id_or_entry_distinguishes_by_colon() {
    assert_eq!(fuzzel_get_selection_id_or_entry("3: mail (2)"), "3");
    assert_eq!(fuzzel_get_selection_id_or_entry("scratch"), "scratch");
}

#[test]
fn strict_resolution() {
    assert_eq!(resolve_strict_id("42: Foo"), Ok(Some(42)));
    assert_eq!(resolve_strict_id(""), Ok(None));
    assert_eq!(resolve_strict_id("abc: x"), Err(OpError::SelectionParse));
    assert_eq!(resolve_strict_id(": x"), Err(OpError::SelectionParse));
    assert_eq!(
        resolve_strict_id("18446744073709551616: far too big"),
        Err(OpError::SelectionParse)
    );
}

#[test]
fn id_or_entry_resolution() {
    assert_eq!(resolve_id_or_entry("3: mail"), Ok(Selection::Identified(3)));
    assert_eq!(resolve_id_or_entry(""), Ok(Selection::NoSelection));
    assert_eq!(
        resolve_id_or_entry("scratch"),
        Ok(Selection::FreeText("scratch".to_string()))
    );
    assert_eq!(resolve_id_or_entry("mail: 3"), Err(OpError::SelectionParse));
}

#[test]
fn window_line_round_trip() {
    let w = WindowInfo { id: 12345, title: Some("a: b: c".to_string()) };
    let line = format_window_line(&w);
    assert_eq!(resolve_strict_id(&line), Ok(Some(12345)));
}

#[test]
fn workspace_line_round_trip() {
    let w = WorkspaceInfo {
        id: 67,
        idx: 4,
        name: Some("dev: main".to_string()),
        is_focused: false,
    };
    let line = format_workspace_line(&w);
    assert_eq!(resolve_strict_id(&line), Ok(Some(67)));
}

#[test]
fn output_line_round_trip() {
    let o = OutputInfo {
        name: "HDMI-A-1".to_string(),
        make: "ACME".to_string(),
        model: "X1".to_string(),
        serial: None,
    };
    let line = format_output_line(&o);
    assert_eq!(fuzzel_get_selection_id(&line), "HDMI-A-1");
}
