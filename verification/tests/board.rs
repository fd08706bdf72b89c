use tira::board::{
    board_empty_cell_key, board_empty_cell_parts, board_group_key, board_group_key_name, board_grouped_lanes,
    board_issue_column, is_board_empty_key, is_board_group_key, normalize_board_user_fields,
    BoardAction, BoardGrouping, BoardState,
};
use tira::collections::FieldMap;
use tira::models::{BoardColumnSummary, BoardData, BoardSwimlaneSummary, IssueSummary, UserSummary};

fn issue(key: &str, status: &str, assignee: Option<&str>) -> IssueSummary {
    let mut field_values = FieldMap::new();
    if let Some(name) = assignee {
        field_values.insert(String::from("assignee"), name.to_owned());
    }
    IssueSummary {
        key: key.to_owned(),
        summary: format!("Summary of {key}"),
        status: status.to_owned(),
        issue_type: String::from("Task"),
        parent_key: None,
        has_children: false,
        field_values,
    }
}

fn sample_board() -> BoardState {
    BoardState::from_issues(vec![
        issue("A-1", "To Do", Some("Bob")),
        issue("A-2", "Done", Some("Ann")),
        issue("A-3", "To Do", None),
    ])
}

#[test]
fn grouping_labels_and_flags() {
    assert_eq!(BoardGrouping::Ungrouped.label(), "None");
    assert_eq!(BoardGrouping::Spaces.label(), "Spaces");
    assert!(!BoardGrouping::Ungrouped.is_grouped());
    assert!(BoardGrouping::Epic.is_grouped());
    assert_eq!(BoardGrouping::all().len(), 5);
}

#[test]
fn selection_keys_round_trip() {
    let key = board_group_key("Team A");
    assert_eq!(key, "__board_group__:Team A");
    assert!(is_board_group_key(&key));
    assert_eq!(board_group_key_name(&key), Some("Team A"));
    assert_eq!(board_group_key_name("A-1"), None);
    let empty = board_empty_cell_key("Team A", 12);
    assert!(is_board_empty_key(&empty));
    assert_eq!(board_empty_cell_parts(&empty), Some(("Team A", 12)));
    assert_eq!(board_empty_cell_parts("__board_empty__:x\u{1f}G"), None);
    assert_eq!(board_empty_cell_parts("__board_empty__:3"), None);
}

#[test]
fn board_starts_on_the_first_card_and_moves_within_columns() {
    let mut board = sample_board();
    assert_eq!(board.selected_issue_key(), Some("A-1"));
    board.dispatch(BoardAction::MoveDown, "", BoardGrouping::Ungrouped);
    assert_eq!(board.selected_issue_key(), Some("A-3"));
    board.dispatch(BoardAction::MoveDown, "", BoardGrouping::Ungrouped);
    assert_eq!(board.selected_issue_key(), Some("A-3"));
    board.dispatch(BoardAction::MoveRight, "", BoardGrouping::Ungrouped);
    assert_eq!(board.selected_issue_key(), Some("A-2"));
    board.dispatch(BoardAction::MoveRight, "", BoardGrouping::Ungrouped);
    assert_eq!(board.selected_issue_key(), Some("A-2"));
    board.dispatch(BoardAction::MoveLeft, "", BoardGrouping::Ungrouped);
    assert_eq!(board.selected_issue_key(), Some("A-1"));
    board.dispatch(BoardAction::GoToEnd, "", BoardGrouping::Ungrouped);
    assert_eq!(board.selected_issue_key(), Some("A-3"));
    board.dispatch(BoardAction::GoToStart, "", BoardGrouping::Ungrouped);
    assert_eq!(board.selected_issue_key(), Some("A-1"));
    assert_eq!(board.selected_issue_index("", BoardGrouping::Ungrouped), 0);
}

#[test]
fn search_leaves_empty_cells_focusable() {
    let mut board = sample_board();
    board.dispatch(BoardAction::MoveDown, "a-2", BoardGrouping::Ungrouped);
    assert_eq!(board.selected_issue_key(), None);
    assert_eq!(board.selected_empty_cell(), Some(("Issues", 0)));
    board.dispatch(BoardAction::MoveRight, "a-2", BoardGrouping::Ungrouped);
    assert_eq!(board.selected_issue_key(), Some("A-2"));
    // the assignee's name matches too
    let mut by_initials = sample_board();
    by_initials.dispatch(BoardAction::MoveDown, "  AN ", BoardGrouping::Ungrouped);
    assert_eq!(by_initials.selected_issue_key(), None);
    by_initials.dispatch(BoardAction::MoveRight, "  AN ", BoardGrouping::Ungrouped);
    assert_eq!(by_initials.selected_issue_key(), Some("A-2"));
}

#[test]
fn grouped_lanes_sort_by_name_with_the_catch_all_last() {
    let mut board = sample_board();
    board.select_first("", BoardGrouping::Assignee);
    assert_eq!(board.selected_group(), Some("Ann"));
    board.dispatch(BoardAction::MoveDown, "", BoardGrouping::Assignee);
    // Ann's lane: empty "To Do" cell, then A-2 under "Done"
    assert_eq!(board.selected_empty_cell(), Some(("Ann", 0)));
    board.dispatch(BoardAction::MoveDown, "", BoardGrouping::Assignee);
    assert_eq!(board.selected_group(), Some("Bob"));
    board.dispatch(BoardAction::MoveDown, "", BoardGrouping::Assignee);
    assert_eq!(board.selected_issue_key(), Some("A-1"));
    board.dispatch(BoardAction::MoveDown, "", BoardGrouping::Assignee);
    assert_eq!(board.selected_group(), Some("Unassigned"));
}

#[test]
fn headers_collapse_and_expand_lanes() {
    let mut board = sample_board();
    board.select_first("", BoardGrouping::Assignee);
    board.dispatch(BoardAction::MoveLeft, "", BoardGrouping::Assignee);
    assert!(board.is_group_collapsed("Ann"));
    board.dispatch(BoardAction::MoveDown, "", BoardGrouping::Assignee);
    assert_eq!(board.selected_group(), Some("Bob"));
    board.dispatch(BoardAction::MoveUp, "", BoardGrouping::Assignee);
    assert_eq!(board.selected_group(), Some("Ann"));
    board.dispatch(BoardAction::MoveRight, "", BoardGrouping::Assignee);
    assert!(!board.is_group_collapsed("Ann"));
    assert_eq!(board.selected_empty_cell(), Some(("Ann", 0)));
    board.dispatch(BoardAction::CollapseAllGroups, "", BoardGrouping::Assignee);
    assert!(board.is_group_collapsed("Ann") && board.is_group_collapsed("Bob"));
    assert_eq!(board.selected_group(), Some("Ann"));
    board.dispatch(BoardAction::ExpandAllGroups, "", BoardGrouping::Assignee);
    assert!(!board.is_group_collapsed("Unassigned"));
}

#[test]
fn half_page_jumps_skip_headers() {
    let issues: Vec<IssueSummary> =
        (1..=9).map(|n| issue(&format!("B-{n}"), "To Do", None)).collect();
    let mut board = BoardState::from_issues(issues);
    board.dispatch(BoardAction::HalfPageDown, "", BoardGrouping::Ungrouped);
    assert_eq!(board.selected_issue_key(), Some("B-5"));
    board.dispatch(BoardAction::HalfPageDown, "", BoardGrouping::Ungrouped);
    assert_eq!(board.selected_issue_key(), Some("B-9"));
    board.dispatch(BoardAction::HalfPageUp, "", BoardGrouping::Ungrouped);
    assert_eq!(board.selected_issue_key(), Some("B-5"));
}

#[test]
fn columns_match_by_status_id_or_name() {
    let data = BoardData {
        id: 7,
        name: String::from("Team board"),
        columns: vec![
            BoardColumnSummary { name: String::from("Open"), statuses: vec![String::from("10")], max: None },
            BoardColumnSummary { name: String::from("Closed"), statuses: Vec::new(), max: Some(3) },
        ],
        swimlanes: vec![BoardSwimlaneSummary { id: None, name: String::from("All"), issue_keys: vec![] }],
        issues: vec![],
        sprint: None,
    };
    let mut open = issue("C-1", "Whatever", None);
    open.field_values.insert(String::from("status_id"), String::from("10"));
    assert_eq!(board_issue_column(&data, &open), 0);
    assert_eq!(board_issue_column(&data, &issue("C-2", "Closed", None)), 1);
    assert_eq!(board_issue_column(&data, &issue("C-3", "Unknown", None)), 0);
}

#[test]
fn account_ids_become_display_names() {
    let mut data = BoardData::from_issues(vec![issue("D-1", "To Do", Some("acc-1")), issue("D-2", "To Do", Some("acc-9"))]);
    data.issues[1].field_values.insert(String::from("reporter"), String::from("me"));
    let users = vec![UserSummary { account_id: String::from("acc-1"), display_name: String::from("Ann Lee") }];
    let me = UserSummary { account_id: String::from("me"), display_name: String::from("Me Myself") };
    normalize_board_user_fields(&mut data, &users, Some(&me));
    assert_eq!(data.issues[0].field_values.get("assignee").map(String::as_str), Some("Ann Lee"));
    assert_eq!(data.issues[1].field_values.get("assignee").map(String::as_str), Some("acc-9"));
    assert_eq!(data.issues[1].field_values.get("reporter").map(String::as_str), Some("Me Myself"));
}

#[test]
fn viewport_scrolls_by_hand_and_keys_return_to_following() {
    let mut board = sample_board();
    board.scroll_viewport(-3);
    assert_eq!(board.scroll_offset, 0);
    assert!(board.manual_v_scroll);
    board.scroll_viewport(5);
    assert_eq!(board.scroll_offset, 5);
    board.scroll_viewport_horizontal(4, 10);
    assert_eq!(board.manual_h_offset, 14);
    board.scroll_viewport_horizontal(-100, 0);
    assert_eq!(board.manual_h_offset, 0);
    board.dispatch(BoardAction::MoveDown, "", BoardGrouping::Ungrouped);
    assert!(!board.manual_v_scroll && !board.manual_h_scroll);
}

#[test]
fn data_updates_keep_or_reset_the_selection() {
    let mut board = sample_board();
    board.dispatch(BoardAction::MoveDown, "", BoardGrouping::Ungrouped);
    board.set_data(BoardData::from_issues(vec![issue("A-3", "Done", None), issue("Z-1", "To Do", None)]));
    assert_eq!(board.selected_issue_key(), Some("A-3"));
    board.set_data(BoardData::from_issues(vec![issue("Z-1", "To Do", None)]));
    assert_eq!(board.selected_issue_key(), Some("Z-1"));
    board.set_error(String::from("boom"));
    assert_eq!(board.error(), Some("boom"));
    board.update_assignee("Z-1", Some(String::from("Kim")));
    let data = board.data().unwrap();
    assert_eq!(data.issues[0].field_values.get("assignee").map(String::as_str), Some("Kim"));
    assert!(BoardState::empty().data().is_none());
}

#[test]
fn every_step_keeps_the_selection_on_a_shown_cell() {
    let actions = [
        BoardAction::MoveDown,
        BoardAction::MoveRight,
        BoardAction::MoveLeft,
        BoardAction::MoveUp,
        BoardAction::ToggleCollapse,
        BoardAction::HalfPageDown,
        BoardAction::HalfPageUp,
        BoardAction::GoToEnd,
        BoardAction::GoToStart,
        BoardAction::CollapseAllGroups,
        BoardAction::MoveDown,
        BoardAction::ExpandAllGroups,
        BoardAction::MoveRight,
    ];
    let mut board = sample_board();
    let data_before = board.data().cloned();
    for action in actions {
        board.dispatch(action, "", BoardGrouping::Assignee);
        assert_eq!(board.data().cloned(), data_before);
        assert_eq!(board.error(), None);
        assert!(!board.manual_v_scroll && !board.manual_h_scroll);
        let key = board.selected_raw_key().expect("a shown cell is selected");
        let issue_keys: Vec<String> = board.data().unwrap().issues.iter().map(|i| i.key.clone()).collect();
        assert!(
            issue_keys.iter().any(|k| k == key) || is_board_group_key(key) || is_board_empty_key(key),
            "selected {key}"
        );
    }
}

#[test]
fn a_selected_issue_key_names_an_issue_of_the_board() {
    let mut board = sample_board();
    for action in [BoardAction::MoveRight, BoardAction::MoveDown, BoardAction::MoveLeft, BoardAction::GoToEnd] {
        board.dispatch(action, "", BoardGrouping::Ungrouped);
        if let Some(key) = board.selected_issue_key() {
            assert!(board.data().unwrap().issues.iter().any(|i| i.key == key));
        }
    }
    board.update_assignee("A-1", Some(String::from("Cy")));
    if let Some(key) = board.selected_issue_key() {
        assert!(board.data().unwrap().issues.iter().any(|i| i.key == key));
    }
}

#[test]
fn board_grouped_lanes_lists_keys_per_lane() {
    let board = sample_board();
    let lanes = board_grouped_lanes(board.data().unwrap(), BoardGrouping::Assignee);
    let names: Vec<&str> = lanes.iter().map(|l| l.name.as_str()).collect();
    assert_eq!(names.len(), 3);
    assert_eq!(names[0], "Ann");
    assert_eq!(names[1], "Bob");
    assert_eq!(names[2], "Unassigned");
    assert_eq!(lanes[2].issue_keys, vec![String::from("A-3")]);
    assert_eq!(lanes[0].issue_keys, vec![String::from("A-2")]);
}
