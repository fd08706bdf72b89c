use tira::tabs::{TabAction, TabsState, TabsViewMode};

const TABS: &[&str] = &["One", "Two", "Three"];

#[test]
fn selected_tab_comes_from_supplied_tabs() {
    let tabs = TabsState::new(1);

    assert_eq!(tabs.active_title(TABS), Some("Two"));
    assert!(tabs.is_active(TABS, "Two"));
}

#[test]
fn previous_and_next_wrap_with_supplied_tab_count() {
    let mut tabs = TabsState::new(0);

    tabs.dispatch(TabAction::Previous, TABS);
    assert_eq!(tabs.active_title(TABS), Some("Three"));
    tabs.dispatch(TabAction::Next, TABS);
    assert_eq!(tabs.active_title(TABS), Some("One"));
}

#[test]
fn next_then_previous_returns_to_the_same_tab() {
    let mut tabs = TabsState::new(2);
    tabs.dispatch(TabAction::Next, TABS);
    tabs.dispatch(TabAction::Previous, TABS);
    assert_eq!(tabs.selected_index(), 2);
    tabs.set_view_mode(TabsViewMode::Minimal);
    assert_eq!(tabs.view_mode(), TabsViewMode::Minimal);
    tabs.set_selected(7);
    assert_eq!(tabs.active_title(TABS), None);
}
