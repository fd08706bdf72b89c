use tira::label::{display_width, has_labels, parse};

#[test]
fn parses_labels_and_counts_width() {
    assert_eq!(parse("frontend, urgent, api"), vec!["frontend", "urgent", "api"]);
    assert_eq!(display_width("frontend, urgent"), 18);
}

#[test]
fn blank_pieces_are_skipped() {
    assert_eq!(parse(" , a ,,b "), vec!["a", "b"]);
    assert!(!has_labels(" , "));
    assert!(has_labels("x"));
    assert_eq!(display_width(""), 0);
}
