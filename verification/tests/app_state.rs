use tira::actions::{QuickAction, TicketDialogAction};
use tira::app_tab::{app_tabs, ApplicationTab};
use tira::collections::FieldMap;
use tira::issue_columns::JiraIssueColumn;
use tira::models::{IssueSummary, TimelineEpic, TimelineEpicStats, TimelineIssue};
use tira::ticket_dialog::{
    ticket_from_issue_summary, ticket_from_timeline_epic, ticket_from_timeline_issue,
    TicketDialogIssue, TicketDialogState, TicketDialogTab,
};

#[test]
fn application_tabs_are_board_list_timeline() {
    assert_eq!(app_tabs(), ["Board", "List", "Timeline"]);
    for tab in ApplicationTab::all() {
        assert_eq!(ApplicationTab::from_index(tab.index()), Some(tab));
    }
    assert_eq!(ApplicationTab::from_index(3), None);
    assert_eq!(QuickAction::Timeline.label(), "Go to Timeline");
}

#[test]
fn fields_param_includes_base_fields_and_dynamic_columns_without_duplicates() {
    let columns = vec![
        JiraIssueColumn::IssueKey,
        JiraIssueColumn::Summary,
        JiraIssueColumn::Status,
        JiraIssueColumn::Field { id: String::from("assignee"), label: String::from("Assignee") },
        JiraIssueColumn::Field { id: String::from("priority"), label: String::from("Priority") },
    ];

    assert_eq!(
        JiraIssueColumn::fields_param(&columns),
        "summary,status,issuetype,parent,assignee,priority"
    );
}

#[test]
fn default_columns_and_their_labels() {
    let columns = JiraIssueColumn::default_columns();
    let labels: Vec<&str> = columns.iter().map(|c| c.label()).collect();
    assert_eq!(labels, vec!["Work", "", "Summary", "Assignee", "Status", "Labels"]);
    let fixed: Vec<bool> = columns.iter().map(|c| c.is_fixed()).collect();
    assert_eq!(fixed, vec![true, true, true, false, false, false]);
    assert_eq!(JiraIssueColumn::labels_column().field_id(), Some("labels"));
    assert_eq!(JiraIssueColumn::Status.field_id(), None);
    let doubled = vec![JiraIssueColumn::labels_column(), JiraIssueColumn::labels_column()];
    assert_eq!(JiraIssueColumn::fields_param(&doubled), "summary,status,issuetype,parent,labels");
}

fn ticket() -> TicketDialogIssue {
    TicketDialogIssue {
        key: String::from("K-1"),
        summary: String::new(),
        status: String::new(),
        issue_type: String::new(),
        parent_key: None,
        parent_issue_type: None,
        fields: FieldMap::new(),
    }
}

#[test]
fn ticket_dialog_tabs_wrap_both_ways() {
    let mut dialog = TicketDialogState::new(ticket());
    assert_eq!(dialog.selected_tab, TicketDialogTab::Overview);
    dialog.dispatch(TicketDialogAction::PreviousTab);
    assert_eq!(dialog.selected_tab, TicketDialogTab::LinkedWorkItems);
    assert_eq!(dialog.selected_tab.label(), "Linked work items");
    dialog.dispatch(TicketDialogAction::NextTab);
    assert_eq!(dialog.selected_tab, TicketDialogTab::Overview);
    dialog.dispatch(TicketDialogAction::NextTab);
    assert_eq!(dialog.selected_tab, TicketDialogTab::Properties);
}

#[test]
fn tickets_carry_their_parent_type_and_counts() {
    let parent = IssueSummary {
        key: String::from("E-1"),
        summary: String::from("Epic"),
        status: String::from("Open"),
        issue_type: String::from("Epic"),
        parent_key: None,
        has_children: true,
        field_values: FieldMap::new(),
    };
    let mut child = parent.clone();
    child.key = String::from("S-1");
    child.issue_type = String::from("Story");
    child.parent_key = Some(String::from("E-1"));
    let issues = vec![parent, child.clone()];
    let ticket = ticket_from_issue_summary(&child, &issues);
    assert_eq!(ticket.parent_issue_type.as_deref(), Some("Epic"));

    let issue = TimelineIssue {
        key: String::from("T-1"),
        summary: String::new(),
        status: String::new(),
        issue_type: String::from("Task"),
        done: false,
        sprint_ids: vec![1, 2],
    };
    let epic = TimelineEpic {
        key: String::from("E-2"),
        summary: String::new(),
        status: String::new(),
        done: false,
        stats: TimelineEpicStats { to_do: 1, in_progress: 0, done: 3 },
        children: vec![issue.clone()],
    };
    let epic_ticket = ticket_from_timeline_epic(&epic);
    assert_eq!(epic_ticket.fields.get("Progress").map(String::as_str), Some("75% done"));
    assert_eq!(epic_ticket.fields.get("Subtasks").map(String::as_str), Some("1"));
    let issue_ticket = ticket_from_timeline_issue(&issue, &epic);
    assert_eq!(issue_ticket.fields.get("Sprint count").map(String::as_str), Some("2"));
    assert_eq!(issue_ticket.parent_key.as_deref(), Some("E-2"));
}
