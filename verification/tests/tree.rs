use tira::collections::{FieldMap, IdSet};
use tira::tree::{Children, TreeAction, TreeEvent, TreeItem, TreeState};

fn item(id: &str, label: &str, kind: &str, parent_id: Option<&str>, root_order: u8) -> TreeItem {
    TreeItem {
        id: id.to_owned(),
        label: label.to_owned(),
        status: String::from("To Do"),
        kind: kind.to_owned(),
        parent_id: parent_id.map(str::to_owned),
        root_order,
        children: Children::Unknown,
        field_values: FieldMap::new(),
    }
}

fn ids(list: &[&str]) -> IdSet {
    IdSet::from_ids(list.iter().map(|id| (*id).to_owned()).collect())
}

#[test]
fn rows_preserve_loaded_root_order_and_indent_children() {
    let tree = TreeState::new(vec![
        item("EPIC", "Parent", "Epic", None, 1),
        item("ONE", "Unparented", "Task", None, 0),
        item("STORY", "Child", "Story", Some("EPIC"), 0),
    ]);

    let rows = tree.rows();

    assert_eq!(tree.items()[rows[0].item_index].id, "EPIC");
    assert_eq!(tree.items()[rows[1].item_index].id, "ONE");
    assert_eq!(rows.len(), 2);
    assert!(rows[0].expandable);
}

#[test]
fn expand_moves_to_first_child_when_already_expanded() {
    let mut tree = TreeState::new(vec![
        item("EPIC", "Parent", "Epic", None, 0),
        item("STORY", "Child", "Story", Some("EPIC"), 0),
    ]);

    tree.dispatch(TreeAction::Expand);
    assert_eq!(tree.rows().len(), 2);
    assert_eq!(tree.selected_row(), 0);

    tree.dispatch(TreeAction::Expand);
    assert_eq!(tree.selected_row(), 1);
}

#[test]
fn collapse_moves_to_parent_when_already_collapsed() {
    let mut tree = TreeState::new(vec![
        item("EPIC", "Parent", "Epic", None, 0),
        item("STORY", "Child", "Story", Some("EPIC"), 0),
    ]);

    tree.dispatch(TreeAction::Expand);
    tree.dispatch(TreeAction::Expand);
    tree.dispatch(TreeAction::Collapse);

    assert_eq!(tree.selected_row(), 0);
}

#[test]
fn tree_g_g_and_uppercase_g_jump_to_start_and_end() {
    let mut tree = TreeState::new(vec![
        item("ONE", "One", "Task", None, 0),
        item("TWO", "Two", "Task", None, 0),
        item("THREE", "Three", "Task", None, 0),
    ]);

    tree.dispatch(TreeAction::GoToEnd);
    assert_eq!(tree.selected_row(), 2);

    tree.dispatch(TreeAction::GotoPrefix);
    tree.dispatch(TreeAction::GotoPrefix);
    assert_eq!(tree.selected_row(), 0);
}

#[test]
fn not_loaded_children_make_a_row_expandable_and_request_a_load() {
    let mut root = item("EPIC", "Parent", "Epic", None, 0);
    root.children = Children::NotLoaded;
    let mut tree = TreeState::new(vec![root]);

    assert!(tree.rows()[0].expandable);
    assert!(!tree.rows()[0].expanded);

    let event = tree.dispatch(TreeAction::ToggleExpanded);
    assert_eq!(event, Some(TreeEvent::LoadChildren(String::from("EPIC"))));
    assert!(tree.rows()[0].loading);
}

#[test]
fn add_children_splices_under_parent_and_marks_loaded() {
    let mut root = item("EPIC", "Parent", "Epic", None, 0);
    root.children = Children::NotLoaded;
    let mut tree = TreeState::new(vec![root]);

    tree.dispatch(TreeAction::ToggleExpanded);
    tree.add_children("EPIC", vec![item("STORY", "Child", "Story", Some("EPIC"), 0)]);

    let rows = tree.rows();
    assert_eq!(rows.len(), 2);
    assert_eq!(tree.items()[rows[1].item_index].id, "STORY");
    assert_eq!(rows[1].depth, 1);
    assert!(!rows[0].loading);
}

#[test]
fn reload_children_drops_subtree_marks_loading_and_keeps_expanded() {
    let mut root = item("EPIC", "Parent", "Epic", None, 0);
    root.children = Children::NotLoaded;
    let mut tree = TreeState::new(vec![root]);
    tree.dispatch(TreeAction::ToggleExpanded);
    tree.add_children("EPIC", vec![item("STORY", "Child", "Story", Some("EPIC"), 0)]);
    assert_eq!(tree.rows().len(), 2);

    let reloaded = tree.reload_children("EPIC");

    assert!(reloaded);
    assert!(tree.any_loading());
    let rows = tree.rows();
    // Child dropped, parent still present, expanded, and showing the spinner.
    assert_eq!(rows.len(), 1);
    assert_eq!(tree.items()[rows[0].item_index].id, "EPIC");
    assert!(rows[0].loading);
    assert!(rows[0].expandable);
    assert_eq!(tree.items().len(), 1);
}

#[test]
fn set_items_preserves_only_listed_expansion() {
    let mut a = item("A", "A", "Epic", None, 0);
    a.children = Children::NotLoaded;
    let mut b = item("B", "B", "Epic", None, 0);
    b.children = Children::NotLoaded;
    let mut tree = TreeState::new(vec![a.clone(), b.clone()]);
    // Expand both, then replace items preserving only A's expansion.
    tree.dispatch(TreeAction::ToggleExpanded); // A
    tree.dispatch(TreeAction::MoveDown);
    tree.dispatch(TreeAction::ToggleExpanded); // B

    let preserve = ids(&["A"]);
    tree.set_items(vec![a, b], &preserve);

    assert!(tree.expanded_item_ids().contains("A"));
    assert!(!tree.expanded_item_ids().contains("B"));
}

#[test]
fn nodes_needing_child_reload_marks_loading_and_returns_unloaded_targets() {
    let mut a = item("A", "A", "Epic", None, 0);
    a.children = Children::NotLoaded;
    let mut tree = TreeState::new(vec![a, item("LEAF", "Leaf", "Task", None, 0)]);

    let restore = ids(&["A", "LEAF", "MISSING"]);
    let to_fetch = tree.nodes_needing_child_reload(&restore);

    // Only A (NotLoaded) is fetched; LEAF (Unknown) and MISSING are skipped.
    assert_eq!(to_fetch, vec![String::from("A")]);
    assert!(tree.any_loading());
    assert!(tree.expanded_item_ids().contains("A"));
}

#[test]
fn expanded_descendant_ids_returns_open_nodes_below_parent() {
    let mut epic = item("EPIC", "Epic", "Epic", None, 0);
    epic.children = Children::NotLoaded;
    let mut tree = TreeState::new(vec![epic]);
    tree.dispatch(TreeAction::ToggleExpanded);
    let mut sub = item("SUB", "Sub", "Story", Some("EPIC"), 0);
    sub.children = Children::NotLoaded;
    tree.add_children("EPIC", vec![sub]);
    // Expand the nested node SUB.
    tree.dispatch(TreeAction::MoveDown);
    tree.dispatch(TreeAction::ToggleExpanded);

    let descendants = tree.expanded_descendant_ids("EPIC");
    assert!(descendants.contains("SUB"));
    assert!(!descendants.contains("EPIC"), "parent itself is excluded");
}

#[test]
fn reload_children_is_noop_for_unknown_or_leaf_nodes() {
    // A node with no known children (Children::Unknown) cannot be reloaded.
    let mut tree = TreeState::new(vec![item("TASK", "Leaf", "Task", None, 0)]);
    assert!(!tree.reload_children("TASK"));
    assert!(!tree.any_loading());
    // An unknown id is also rejected.
    assert!(!tree.reload_children("MISSING"));
}

#[test]
fn childless_unknown_row_without_loaded_children_is_not_expandable() {
    let root = item("EPIC", "Parent", "Epic", None, 0);
    let tree = TreeState::new(vec![root]);

    assert!(!tree.rows()[0].expandable);
}

#[test]
fn flat_mode_lists_every_item_at_depth_zero_without_expansion() {
    let mut tree = TreeState::new(vec![
        item("EPIC", "Parent", "Epic", None, 0),
        item("STORY", "Child", "Story", Some("EPIC"), 0),
    ]);
    tree.set_flat(true);

    let rows = tree.rows();
    assert_eq!(rows.len(), 2);
    assert!(rows.iter().all(|row| row.depth == 0 && !row.expandable));
}

#[test]
fn selection_survives_child_splice_by_id() {
    let mut root = item("EPIC", "Parent", "Epic", None, 0);
    root.children = Children::NotLoaded;
    let mut tree = TreeState::new(vec![root, item("OTHER", "Other", "Task", None, 0)]);

    tree.dispatch(TreeAction::MoveDown);
    assert_eq!(tree.selected_item_id(), Some("OTHER"));

    tree.add_children("EPIC", vec![item("STORY", "Child", "Story", Some("EPIC"), 0)]);
    assert_eq!(tree.selected_item_id(), Some("OTHER"));
}

#[test]
fn scroll_glides_smoothly_toward_target() {
    let mut items = Vec::new();
    for i in 0..50 {
        items.push(item(&format!("ITEM_{i}"), &format!("Item {i}"), "Task", None, 0));
    }
    let mut tree = TreeState::new(items);

    tree.dispatch(TreeAction::GoToEnd);
    // The animation has not moved yet: the window still starts at the top,
    // while the settled target is the last page.
    let range = tree.visible_range(10, 0);
    assert_eq!(tree.scroll_offset(), 40);
    assert_eq!(range.start, 0);

    // Once the animation reaches the target the window starts there.
    let range_end = tree.visible_range(10, 40);
    assert_eq!(range_end.start, 40);
}

#[test]
fn root_rows_preserve_loaded_order_instead_of_type_sorting() {
    let tree = TreeState::new(vec![
        item("EPIC", "Epic Parent", "Epic", None, 0),
        item("STORY_WITH_CHILDREN", "Story Parent", "Story", None, 0),
        item("STORY_NO_CHILDREN", "Story Leaf", "Story", None, 0),
        item("BUG", "Bug Report", "Bug", None, 0),
        item("TASK", "Task Item", "Task", None, 0),
    ]);

    let rows = tree.rows();
    let root_ids: Vec<String> = rows
        .iter()
        .filter(|row| row.depth == 0)
        .map(|row| tree.items()[row.item_index].id.clone())
        .collect();

    assert_eq!(
        root_ids,
        vec![
            String::from("EPIC"),
            String::from("STORY_WITH_CHILDREN"),
            String::from("STORY_NO_CHILDREN"),
            String::from("BUG"),
            String::from("TASK")
        ]
    );
}

#[test]
fn collapse_all_then_expand_all_restores_rows() {
    let mut tree = TreeState::new(vec![
        item("EPIC", "Parent", "Epic", None, 0),
        item("STORY", "Child", "Story", Some("EPIC"), 0),
    ]);
    tree.dispatch(TreeAction::ExpandAll);
    assert_eq!(tree.rows().len(), 2);
    tree.dispatch(TreeAction::CollapseAll);
    assert_eq!(tree.rows().len(), 1);
    tree.dispatch(TreeAction::ExpandAll);
    assert_eq!(tree.rows().len(), 2);
}
