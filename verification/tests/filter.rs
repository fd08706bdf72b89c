use tira::filter::{FilterAction, FilterEvent, FilterState};

#[test]
fn text_and_backspace_update_value() {
    let mut filter = FilterState::default();

    filter.dispatch(FilterAction::Text('c'));
    filter.dispatch(FilterAction::Text('a'));
    filter.dispatch(FilterAction::Backspace);

    assert_eq!(filter.value(), "c");
}

#[test]
fn submit_emits_blurred_event_and_clears_focus() {
    let mut filter = FilterState::default();
    filter.focus();

    let event = filter.dispatch(FilterAction::Submit);

    assert_eq!(event, Some(FilterEvent::Blurred));
    assert!(!filter.is_focused());
}

#[test]
fn exit_emits_blurred_event_and_keeps_value() {
    let mut filter = FilterState::default();
    filter.focus();
    filter.dispatch(FilterAction::Text('c'));

    let event = filter.dispatch(FilterAction::Exit);

    assert_eq!(event, Some(FilterEvent::Blurred));
    assert_eq!(filter.value(), "c");
    assert!(!filter.is_focused());
}

#[test]
fn typing_then_backspace_restores_the_value_and_cursor() {
    let mut filter = FilterState::default();
    filter.dispatch(FilterAction::Text('a'));
    filter.dispatch(FilterAction::Text('b'));
    let before = filter.clone();
    filter.dispatch(FilterAction::Text('x'));
    filter.dispatch(FilterAction::Backspace);
    assert_eq!(filter.value(), before.value());
    assert_eq!(filter.cursor(), before.cursor());
}

#[test]
fn clear_empties_value_and_cursor() {
    let mut filter = FilterState::default();
    filter.dispatch(FilterAction::Text('q'));
    filter.clear();
    assert_eq!(filter.value(), "");
    assert_eq!(filter.cursor(), 0);
    filter.focus();
    assert!(filter.is_focused());
    filter.clear_focus();
    assert!(!filter.is_focused());
}
