use sway_action::selection::{
    bemenu_get_selection, bemenu_get_selection_id, candidate_labels, join_lines,
};
use sway_action::strings::u64_to_string;
use sway_action::tree::Candidate;

/// The identifier is the segment before the first colon.
#[test]
fn selection_id_parses_prefix() {
    assert_eq!(
        bemenu_get_selection_id("42: my-window"),
        Some("42".to_string())
    );
}

/// A label without a colon is a defined error, not a panic.
#[test]
fn selection_id_no_colon_is_error() {
    assert_eq!(bemenu_get_selection_id("my-window"), None);
}

/// A cancelled (empty) selection aborts, as does an empty identifier
/// segment.
#[test]
fn selection_id_empty_aborts() {
    assert_eq!(bemenu_get_selection_id(""), None);
    assert_eq!(bemenu_get_selection_id("\n"), None);
    assert_eq!(bemenu_get_selection_id(": nameless"), None);
}

/// Only the first colon splits; the rest stays in the label.
#[test]
fn selection_id_first_colon_wins() {
    assert_eq!(
        bemenu_get_selection_id("7: name: with colon\n"),
        Some("7".to_string())
    );
}

/// The prompt's raw output loses one trailing newline, nothing else.
#[test]
fn selection_line_strips_one_newline() {
    assert_eq!(bemenu_get_selection("ws1\n"), "ws1");
    assert_eq!(bemenu_get_selection("ws1"), "ws1");
    assert_eq!(bemenu_get_selection("a\n\n"), "a\n");
    assert_eq!(bemenu_get_selection(""), "");
}

/// Labels are joined by single newlines, with no trailing newline.
#[test]
fn join_lines_with_newlines() {
    let lines = vec!["3: Firefox".to_string(), "7: Terminal".to_string()];
    assert_eq!(join_lines(&lines), "3: Firefox\n7: Terminal");
    assert_eq!(join_lines(&vec!["only".to_string()]), "only");
    assert_eq!(join_lines(&Vec::new()), "");
}

/// Candidate labels come out in candidate order.
#[test]
fn candidate_labels_in_order() {
    let cands = vec![
        Candidate {
            id: 3,
            label: "3: Firefox".to_string(),
        },
        Candidate {
            id: 7,
            label: "7: Terminal".to_string(),
        },
    ];
    assert_eq!(candidate_labels(&cands), vec!["3: Firefox", "7: Terminal"]);
}

/// Decimal formatting of identifiers, including the extremes.
#[test]
fn u64_formatting() {
    assert_eq!(u64_to_string(0), "0");
    assert_eq!(u64_to_string(42), "42");
    assert_eq!(u64_to_string(1000), "1000");
    assert_eq!(u64_to_string(u64::MAX), "18446744073709551615");
}
