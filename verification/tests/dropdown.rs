use tira::dropdown::{
    DropdownAction, DropdownEvent, DropdownOption, DropdownVisibleOption, MultiSelectDropdownState,
};
use tira::filter::FilterAction;

fn option(label: &str, selected: bool) -> DropdownOption<()> {
    DropdownOption { value: (), label: label.to_owned(), selected }
}

fn fields(count: usize) -> Vec<DropdownOption<()>> {
    (0..count).map(|index| option(&format!("Field {index}"), false)).collect()
}

#[test]
fn close_clears_focused_filter_before_closing() {
    let mut dropdown = MultiSelectDropdownState::new(vec![option("Work", true)]);

    dropdown.dispatch(DropdownAction::FocusFilter);
    dropdown.dispatch(DropdownAction::Filter(FilterAction::Text('w')));

    assert_eq!(dropdown.dispatch(DropdownAction::Close), None);
    assert_eq!(dropdown.filter(), "");
    assert!(!dropdown.is_filter_focused());
    assert_eq!(dropdown.dispatch(DropdownAction::Close), Some(DropdownEvent::Closed));
}

#[test]
fn at_least_one_selection_required_blocks_last_selected_toggle() {
    let mut dropdown =
        MultiSelectDropdownState::new(vec![option("Work", true), option("Summary", false)])
            .require_at_least_one_selection();

    assert!(!dropdown.is_option_toggle_enabled(0));
    assert_eq!(dropdown.dispatch(DropdownAction::ToggleSelected), None);
    assert!(dropdown.options()[0].selected);
}

#[test]
fn at_least_one_selection_required_allows_toggle_when_more_selected() {
    let mut dropdown =
        MultiSelectDropdownState::new(vec![option("Work", true), option("Summary", true)])
            .require_at_least_one_selection();

    assert!(dropdown.is_option_toggle_enabled(0));
    assert_eq!(dropdown.dispatch(DropdownAction::ToggleSelected), Some(DropdownEvent::Toggled(0)));
    assert!(!dropdown.options()[0].selected);
}

#[test]
fn movement_skips_filtered_out_options() {
    let mut dropdown = MultiSelectDropdownState::new(vec![
        option("Work", true),
        option("Summary", true),
        option("Work type", false),
    ]);

    dropdown.dispatch(DropdownAction::FocusFilter);
    dropdown.dispatch(DropdownAction::Filter(FilterAction::Text('w')));
    dropdown.dispatch(DropdownAction::Filter(FilterAction::Exit));
    dropdown.dispatch(DropdownAction::MoveDown);

    assert_eq!(dropdown.selected_index(), 2);
}

#[test]
fn filter_change_selects_first_visible_option() {
    let mut dropdown = MultiSelectDropdownState::new(vec![
        option("Work", true),
        option("Summary", true),
        option("Assignee", false),
    ]);

    dropdown.dispatch(DropdownAction::MoveDown);
    dropdown.dispatch(DropdownAction::FocusFilter);
    dropdown.dispatch(DropdownAction::Filter(FilterAction::Text('a')));
    dropdown.dispatch(DropdownAction::Filter(FilterAction::Text('s')));
    dropdown.dispatch(DropdownAction::Filter(FilterAction::Text('s')));
    assert_eq!(dropdown.selected_index(), 2);
}

#[test]
fn empty_filter_results_render_unselectable_message() {
    let mut dropdown = MultiSelectDropdownState::new(vec![option("Work", true)]);

    dropdown.dispatch(DropdownAction::FocusFilter);
    dropdown.dispatch(DropdownAction::Filter(FilterAction::Text('z')));

    assert_eq!(dropdown.visible_window(5, 0), vec![DropdownVisibleOption::NoResults]);
    assert_eq!(dropdown.dispatch(DropdownAction::ToggleSelected), None);
}

#[test]
fn dropdown_g_g_and_uppercase_g_jump_to_start_and_end() {
    let mut dropdown = MultiSelectDropdownState::new(fields(4));

    dropdown.dispatch(DropdownAction::GoToEnd);
    assert_eq!(dropdown.selected_index(), 3);

    dropdown.dispatch(DropdownAction::GotoPrefix);
    assert_eq!(dropdown.selected_index(), 3);

    dropdown.dispatch(DropdownAction::GotoPrefix);
    assert_eq!(dropdown.selected_index(), 0);
}

// The scroll animation runs outside the library: the window starts where the
// animation stands, and a finished animation stands at `scroll_target`.
#[test]
fn g_g_scrolls_toward_start_instead_of_snapping() {
    let mut dropdown = MultiSelectDropdownState::new(fields(30));

    assert_eq!(dropdown.visible_range(5, 0), 0..5);
    dropdown.dispatch(DropdownAction::GoToEnd);
    assert_eq!(dropdown.visible_range(5, 0), 0..5);
    let settled = dropdown.scroll_target();
    assert_eq!(dropdown.visible_range(5, settled), 25..30);

    dropdown.dispatch(DropdownAction::GotoPrefix);
    dropdown.dispatch(DropdownAction::GotoPrefix);

    assert_eq!(dropdown.selected_index(), 0);
    assert_eq!(dropdown.visible_range(5, settled), 25..30);
    let settled = dropdown.scroll_target();
    assert_eq!(dropdown.visible_range(5, settled), 0..5);
}

#[test]
fn deselect_keeps_selection_on_same_visible_line() {
    let mut dropdown = MultiSelectDropdownState::new(vec![
        option("Work", true),
        option("Summary", true),
        option("Work type", true),
        option("Status", false),
    ]);

    dropdown.dispatch(DropdownAction::MoveDown);
    assert_eq!(dropdown.selected_index(), 1);

    dropdown.dispatch(DropdownAction::ToggleSelected);

    assert_eq!(dropdown.selected_index(), 2);
    assert!(!dropdown.options()[1].selected);
}

#[test]
fn deselect_last_selected_item_moves_up_before_separator() {
    let mut dropdown = MultiSelectDropdownState::new(vec![
        option("Work", true),
        option("Summary", true),
        option("Work type", true),
        option("Status", false),
    ]);

    dropdown.dispatch(DropdownAction::MoveDown);
    dropdown.dispatch(DropdownAction::MoveDown);
    assert_eq!(dropdown.selected_index(), 2);

    dropdown.dispatch(DropdownAction::ToggleSelected);

    assert_eq!(dropdown.selected_index(), 1);
    assert!(!dropdown.options()[2].selected);
}

#[test]
fn single_select_marks_only_selected_option_without_separator() {
    let mut dropdown = MultiSelectDropdownState::new(vec![
        option("KAN", true),
        option("OPS", false),
        option("WEB", false),
    ])
    .single_select();

    dropdown.dispatch(DropdownAction::MoveDown);
    assert_eq!(dropdown.dispatch(DropdownAction::ToggleSelected), Some(DropdownEvent::Toggled(1)));

    assert!(!dropdown.options()[0].selected);
    assert!(dropdown.options()[1].selected);
    assert!(!dropdown.options()[2].selected);
    assert!(!dropdown
        .visible_window(10, 0)
        .iter()
        .any(|entry| matches!(entry, DropdownVisibleOption::Separator)));
}

#[test]
fn select_first_unselected_item_moves_down_after_separator() {
    let mut dropdown = MultiSelectDropdownState::new(vec![
        option("Work", true),
        option("Summary", true),
        option("Work type", false),
        option("Status", false),
    ]);

    dropdown.dispatch(DropdownAction::MoveDown);
    dropdown.dispatch(DropdownAction::MoveDown);
    assert_eq!(dropdown.selected_index(), 2);

    dropdown.dispatch(DropdownAction::ToggleSelected);

    assert_eq!(dropdown.selected_index(), 3);
    assert!(dropdown.options()[2].selected);
}

#[test]
fn single_select_emits_toggle_for_already_selected_option() {
    let mut dropdown =
        MultiSelectDropdownState::new(vec![option("KAN", true), option("OPS", false)]).single_select();

    assert_eq!(dropdown.dispatch(DropdownAction::ToggleSelected), Some(DropdownEvent::Toggled(0)));
    assert!(dropdown.options()[0].selected);
    assert!(!dropdown.options()[1].selected);
}

#[test]
fn selected_options_render_before_separator_and_unselected_options() {
    let mut dropdown = MultiSelectDropdownState::new(vec![
        option("Work", true),
        option("Project", false),
        option("Summary", true),
    ]);
    let visible = dropdown.visible_window(10, 0);

    assert!(matches!(visible[0], DropdownVisibleOption::Option { index: 0, .. }));
    assert!(matches!(visible[1], DropdownVisibleOption::Option { index: 2, .. }));
    assert!(matches!(visible[2], DropdownVisibleOption::Separator));
    assert!(matches!(visible[3], DropdownVisibleOption::Option { index: 1, .. }));
}

#[test]
fn single_step_navigation_keeps_scroll_until_selection_reaches_middle() {
    let mut dropdown = MultiSelectDropdownState::new(fields(20));

    assert_eq!(dropdown.visible_range(6, 0), 0..6);
    dropdown.dispatch(DropdownAction::MoveDown);
    dropdown.dispatch(DropdownAction::MoveDown);
    dropdown.dispatch(DropdownAction::MoveDown);

    assert_eq!(dropdown.selected_index(), 3);
    assert_eq!(dropdown.visible_range(6, dropdown.scroll_target()), 0..6);

    dropdown.dispatch(DropdownAction::MoveDown);
    assert_eq!(dropdown.visible_range(6, 0), 0..6);
    let settled = dropdown.scroll_target();

    assert_eq!(dropdown.selected_index(), 4);
    assert_eq!(dropdown.visible_range(6, settled), 1..7);
}

#[test]
fn half_page_navigation_scrolls_selected_item_into_view() {
    let mut dropdown = MultiSelectDropdownState::new(fields(20));

    assert_eq!(dropdown.visible_range(5, 0), 0..5);
    dropdown.dispatch(DropdownAction::HalfPageDown);

    assert_eq!(dropdown.selected_index(), 10);
    assert_eq!(dropdown.visible_range(5, 0), 0..5);
    let settled = dropdown.scroll_target();
    assert_eq!(dropdown.visible_range(5, settled), 8..13);
}
