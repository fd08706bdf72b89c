use tira::collections::FieldMap;
use tira::dropdown::DropdownAction;
use tira::filter::FilterAction;
use tira::filtered_tree::FilteredTreeAction;
use tira::issue_columns::{JiraFilteredTreeAction, JiraFilteredTreeEvent, JiraIssueColumn};
use tira::jira_tree::JiraFilteredTreeState;
use tira::tree::{Children, TreeAction, TreeItem};

fn item(id: &str) -> TreeItem {
    TreeItem {
        id: id.to_owned(),
        label: String::from("Issue"),
        status: String::from("To Do"),
        kind: String::from("Task"),
        parent_id: None,
        field_values: FieldMap::new(),
        root_order: 0,
        children: Children::Unknown,
    }
}

#[test]
fn selected_issue_url_uses_configured_jira_site_and_issue_key() {
    let mut tree = JiraFilteredTreeState::new(vec![item("KAN-20")]);
    tree.set_jira_site("https://example.atlassian.net/");

    assert_eq!(
        tree.selected_issue_url().as_deref(),
        Some("https://example.atlassian.net/browse/KAN-20")
    );
}

#[test]
fn filter_input_emits_filter_changed_event_for_server_search() {
    let mut tree = JiraFilteredTreeState::new(vec![item("KAN-1"), item("KAN-2")]);

    let mut last = None;
    for ch in "price".chars() {
        last = tree.dispatch_filter(FilterAction::Text(ch));
    }

    assert_eq!(last, Some(JiraFilteredTreeEvent::FilterChanged(String::from("price"))));
}

#[test]
fn expanding_not_loaded_issue_emits_load_children_event() {
    let mut root = item("KAN-1");
    root.children = Children::NotLoaded;
    let mut tree = JiraFilteredTreeState::new(vec![root]);

    let event = tree.dispatch(JiraFilteredTreeAction::FilteredTree(FilteredTreeAction::Tree(
        TreeAction::ToggleExpanded,
    )));

    assert_eq!(event, Some(JiraFilteredTreeEvent::LoadChildren(String::from("KAN-1"))));
}

#[test]
fn yanking_the_link_takes_two_presses() {
    let mut tree = JiraFilteredTreeState::new(vec![item("KAN-3")]);
    assert_eq!(tree.dispatch(JiraFilteredTreeAction::YankIssueUrlPrefix), None);
    assert_eq!(
        tree.dispatch(JiraFilteredTreeAction::YankIssueUrlPrefix),
        Some(JiraFilteredTreeEvent::IssueUrlCopyUnavailable(String::from(
            "No selected issue or Jira site is available."
        )))
    );
    tree.set_jira_site("https://x.net//");
    tree.dispatch(JiraFilteredTreeAction::YankIssueUrlPrefix);
    assert_eq!(
        tree.dispatch(JiraFilteredTreeAction::YankIssueUrlPrefix),
        Some(JiraFilteredTreeEvent::IssueUrlCopyRequested(String::from("https://x.net/browse/KAN-3")))
    );
}

#[test]
fn the_column_picker_toggles_optional_columns() {
    let mut tree = JiraFilteredTreeState::new(vec![item("KAN-1")]);
    assert_eq!(tree.visible_columns().len(), 6);
    tree.dispatch(JiraFilteredTreeAction::OpenColumns);
    assert!(tree.is_column_dropdown_open());
    assert!(tree.is_column_dropdown_filter_focused());
    let labels: Vec<&str> =
        tree.column_dropdown().unwrap().options().iter().map(|o| o.label.as_str()).collect();
    assert_eq!(labels, vec!["Assignee", "Status", "Labels"]);
    // leave the filter line, then hide the assignee column
    tree.dispatch(JiraFilteredTreeAction::Dropdown(DropdownAction::Filter(FilterAction::Exit)));
    let event = tree.dispatch(JiraFilteredTreeAction::Dropdown(DropdownAction::ToggleSelected));
    let shown: Vec<&str> = tree.visible_columns().iter().map(|c| c.label()).collect();
    assert_eq!(shown, vec!["Work", "", "Summary", "Status", "Labels"]);
    assert!(matches!(event, Some(JiraFilteredTreeEvent::ColumnsChanged(columns)) if columns.len() == 5));
    tree.dispatch(JiraFilteredTreeAction::OpenColumns);
    assert!(!tree.is_column_dropdown_open());
    tree.set_available_columns(vec![JiraIssueColumn::IssueKey, JiraIssueColumn::IssueType]);
    tree.open_column_dropdown();
    assert_eq!(tree.column_dropdown().unwrap().options().len(), 1);
}
