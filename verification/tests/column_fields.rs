use tira::collections::{FieldMap, IdSet};
use tira::column_fields::{
    available_columns, candidate_fields, merge_board_issue_fields, name_disambiguation,
    ordered_columns,
};
use tira::issue_columns::JiraIssueColumn;
use tira::models::{BoardData, FieldSummary, IssueSummary};

fn field(id: &str, name: &str) -> FieldSummary {
    FieldSummary { id: id.to_owned(), name: name.to_owned() }
}

fn issue(key: &str, fields: &[(&str, &str)]) -> IssueSummary {
    let mut field_values = FieldMap::new();
    for (k, v) in fields {
        field_values.insert((*k).to_owned(), (*v).to_owned());
    }
    IssueSummary {
        key: key.to_owned(),
        summary: String::from("summary"),
        status: String::from("To Do"),
        issue_type: String::from("Task"),
        parent_key: None,
        has_children: false,
        field_values,
    }
}

fn column(id: &str, label: &str) -> JiraIssueColumn {
    JiraIssueColumn::Field { id: id.to_owned(), label: label.to_owned() }
}

#[test]
fn list_assignee_and_reporter_win_other_fields_fill_gaps() {
    let mut board = BoardData {
        id: 1,
        name: String::from("Board"),
        columns: vec![],
        swimlanes: vec![],
        issues: vec![
            issue("A-1", &[("assignee", "Board Ann"), ("priority", "High")]),
            issue("A-2", &[("priority", "Low")]),
        ],
        sprint: None,
    };
    let list = vec![issue(
        "A-1",
        &[("assignee", "List Ann"), ("reporter", "Rex"), ("priority", "Lowest"), ("labels", "ui")],
    )];
    merge_board_issue_fields(&mut board, &list);
    let merged = &board.issues[0].field_values;
    assert_eq!(merged.get("assignee").map(String::as_str), Some("List Ann"));
    assert_eq!(merged.get("reporter").map(String::as_str), Some("Rex"));
    assert_eq!(merged.get("priority").map(String::as_str), Some("High"));
    assert_eq!(merged.get("labels").map(String::as_str), Some("ui"));
    let untouched = &board.issues[1].field_values;
    assert_eq!(untouched.get("priority").map(String::as_str), Some("Low"));
    assert!(!untouched.contains_key("assignee"));
}

#[test]
fn candidates_skip_pinned_and_unpopulated_fields() {
    let fields = vec![
        field("summary", "Summary"),
        field("customfield_1", "Team"),
        field("assignee", "Assignee"),
        field("customfield_2", "Unused"),
    ];
    let all = candidate_fields(fields.clone(), None);
    assert_eq!(all, vec![field("customfield_1", "Team"), field("customfield_2", "Unused")]);
    let populated = IdSet::from_ids(vec![String::from("customfield_1")]);
    let some = candidate_fields(fields, Some(&populated));
    assert_eq!(some, vec![field("customfield_1", "Team")]);
}

#[test]
fn names_count_the_pinned_names_too() {
    let candidates = vec![field("customfield_1", "Status"), field("x", "Team"), field("y", "Team")];
    let counts = name_disambiguation(&candidates);
    assert_eq!(counts.get("Status"), 2);
    assert_eq!(counts.get("Team"), 2);
    assert_eq!(counts.get("Work type"), 1);
    assert_eq!(counts.get("Other"), 0);
}

#[test]
fn curated_fields_lead_then_names_in_lowercase_order() {
    let candidates = vec![
        field("customfield_9", "zeta"),
        field("customfield_3", "Sprint"),
        field("duedate", "Due date"),
        field("customfield_4", "Alpha"),
        field("reporter", "Reporter"),
        field("customfield_5", "beta"),
        field("customfield_6", "Status"),
    ];
    let counts = name_disambiguation(&candidates);
    let columns = ordered_columns(candidates, &counts);
    assert_eq!(
        columns,
        vec![
            column("reporter", "Reporter"),
            column("duedate", "Due date"),
            column("customfield_3", "Sprint"),
            column("customfield_4", "Alpha"),
            column("customfield_5", "beta"),
            column("customfield_6", "Status (customfield_6)"),
            column("customfield_9", "zeta"),
        ]
    );
}

#[test]
fn available_columns_pin_four_then_order_the_rest() {
    let fields = vec![field("customfield_2", "b"), field("status", "Status"), field("customfield_1", "a")];
    let columns = available_columns(fields, None);
    assert_eq!(
        columns,
        vec![
            column("assignee", "Assignee"),
            JiraIssueColumn::Status,
            column("labels", "Labels"),
            JiraIssueColumn::IssueType,
            column("customfield_1", "a"),
            column("customfield_2", "b"),
        ]
    );
}
