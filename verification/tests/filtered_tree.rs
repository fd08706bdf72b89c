use tira::collections::{FieldMap, IdSet};
use tira::filter::FilterAction;
use tira::filtered_tree::{
    FilteredTreeAction, FilteredTreeEvent, FilteredTreeState, FilteredTreeViewMode,
};
use tira::tree::{Children, TreeAction, TreeItem};

fn item(id: &str, label: &str, parent_id: Option<&str>) -> TreeItem {
    TreeItem {
        id: id.to_owned(),
        label: label.to_owned(),
        status: String::from("To Do"),
        kind: String::from("Task"),
        parent_id: parent_id.map(str::to_owned),
        field_values: FieldMap::new(),
        root_order: 0,
        children: Children::Unknown,
    }
}

#[test]
fn supports_switching_between_list_and_table_view() {
    let mut filtered_tree = FilteredTreeState::new(Vec::new());

    filtered_tree.set_view_mode(FilteredTreeViewMode::Table);

    assert_eq!(filtered_tree.view_mode(), FilteredTreeViewMode::Table);
}

#[test]
fn typing_filter_emits_filter_changed_with_current_value() {
    let mut filtered_tree =
        FilteredTreeState::new(vec![item("ONE", "Checkout", None), item("TWO", "Catalog", None)]);

    filtered_tree.dispatch(FilteredTreeAction::FocusFilter);
    filtered_tree.dispatch_filter(FilterAction::Text('c'));
    let event = filtered_tree.dispatch_filter(FilterAction::Text('a'));

    assert_eq!(event, Some(FilteredTreeEvent::FilterChanged(String::from("ca"))));
    assert_eq!(filtered_tree.filter(), "ca");
}

#[test]
fn emptying_filter_by_backspace_emits_filter_cleared() {
    let mut filtered_tree = FilteredTreeState::new(vec![item("ONE", "Checkout", None)]);

    filtered_tree.dispatch(FilteredTreeAction::FocusFilter);
    filtered_tree.dispatch_filter(FilterAction::Text('c'));
    let event = filtered_tree.dispatch_filter(FilterAction::Backspace);

    assert_eq!(event, Some(FilteredTreeEvent::FilterCleared));
    assert_eq!(filtered_tree.filter(), "");
}

#[test]
fn clear_filter_action_emits_cleared_only_when_filter_was_set() {
    let mut filtered_tree = FilteredTreeState::new(vec![item("ONE", "Checkout", None)]);

    assert_eq!(filtered_tree.dispatch(FilteredTreeAction::ClearFilter), None);

    filtered_tree.dispatch(FilteredTreeAction::FocusFilter);
    filtered_tree.dispatch_filter(FilterAction::Text('c'));

    assert_eq!(
        filtered_tree.dispatch(FilteredTreeAction::ClearFilter),
        Some(FilteredTreeEvent::FilterCleared)
    );
    assert_eq!(filtered_tree.filter(), "");
}

#[test]
fn tree_action_is_scoped_through_filtered_tree() {
    let mut filtered_tree =
        FilteredTreeState::new(vec![item("ONE", "One", None), item("TWO", "Two", None)]);

    filtered_tree.dispatch(FilteredTreeAction::Tree(TreeAction::MoveDown));

    assert_eq!(filtered_tree.selected_item_index(), 1);
}

#[test]
fn expanding_not_loaded_item_emits_load_children() {
    let mut root = item("EPIC", "Parent", None);
    root.children = Children::NotLoaded;
    let mut filtered_tree = FilteredTreeState::new(vec![root]);

    let event = filtered_tree.dispatch(FilteredTreeAction::Tree(TreeAction::ToggleExpanded));

    assert_eq!(event, Some(FilteredTreeEvent::LoadChildren(String::from("EPIC"))));
}

#[test]
fn refreshed_items_preserve_selected_id() {
    let mut filtered_tree = FilteredTreeState::new(vec![
        item("ONE", "Checkout", None),
        item("TWO", "Catalog", None),
        item("THREE", "Cart", None),
    ]);
    filtered_tree.dispatch(FilteredTreeAction::Tree(TreeAction::MoveDown));
    filtered_tree.dispatch(FilteredTreeAction::Tree(TreeAction::MoveDown));
    assert_eq!(filtered_tree.selected_item_id(), Some("THREE"));

    filtered_tree.set_items(
        vec![
            item("THREE", "Cart refreshed", None),
            item("TWO", "Catalog refreshed", None),
            item("ONE", "Checkout refreshed", None),
        ],
        &IdSet::new(),
    );

    assert_eq!(filtered_tree.selected_item_id(), Some("THREE"));
    assert_eq!(filtered_tree.selected_item_index(), 0);
}

#[test]
fn quit_in_the_filter_line_asks_to_quit_and_counts_roots() {
    let mut filtered_tree = FilteredTreeState::new(vec![
        item("EPIC", "Parent", None),
        item("STORY", "Child", Some("EPIC")),
        item("TASK", "Task", None),
    ]);
    assert_eq!(filtered_tree.root_count(), 2);
    assert_eq!(filtered_tree.dispatch_filter(FilterAction::Quit), Some(FilteredTreeEvent::Quit));
    filtered_tree.dispatch(FilteredTreeAction::FocusFilter);
    assert!(filtered_tree.is_filter_focused());
    filtered_tree.clear_transient_input();
    assert!(!filtered_tree.is_filter_focused());
}
