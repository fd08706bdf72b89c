use tira::command_log::{CommandLogView, DialogKind, ModalState};

fn laid_out(total: usize, viewport: usize) -> CommandLogView {
    let mut view = CommandLogView::default();
    view.open();
    view.cache_layout(0, total, viewport);
    view
}

#[test]
fn opening_follows_the_newest_entry() {
    let mut view = CommandLogView::default();
    view.offset = 7;
    view.go_to_start_pending = true;
    view.open();
    assert!(view.follows_tail());
    assert_eq!(view.scroll(), 0);
    assert!(!view.go_to_start_pending);
}

#[test]
fn scrolling_up_leaves_the_tail_and_down_returns_to_it() {
    let mut view = laid_out(30, 10);
    assert_eq!(view.max_scroll(), 20);
    view.scroll_by(-1);
    assert_eq!(view.scroll(), 19);
    assert!(!view.follows_tail());
    view.scroll_by(-100);
    assert_eq!(view.scroll(), 0);
    view.scroll_by(25);
    assert_eq!(view.scroll(), 20);
    assert!(view.follows_tail());
}

#[test]
fn pages_move_by_the_viewport_and_half_pages_by_half() {
    let mut view = laid_out(100, 10);
    view.page(-1);
    assert_eq!(view.scroll(), 80);
    view.half_page(-1);
    assert_eq!(view.scroll(), 75);
    view.half_page(1);
    assert_eq!(view.scroll(), 80);
    let mut tiny = laid_out(5, 0);
    assert_eq!(tiny.max_scroll(), 4);
    tiny.half_page(-1);
    assert_eq!(tiny.scroll(), 3);
}

#[test]
fn double_g_jumps_to_the_first_entry_and_end_follows_again() {
    let mut view = laid_out(40, 10);
    view.arm_go_to_start();
    assert!(view.go_to_start_pending);
    assert!(view.follows_tail());
    view.arm_go_to_start();
    assert_eq!(view.scroll(), 0);
    assert!(!view.follows_tail());
    view.to_end();
    assert!(view.follows_tail());
    view.to_start();
    assert_eq!(view.scroll(), 0);
    view.scroll_by(3);
    assert!(!view.go_to_start_pending);
}

#[test]
fn modal_kinds_ignore_their_state() {
    assert_eq!(ModalState::Help { selected: 4 }.kind(), DialogKind::Help);
    assert_eq!(ModalState::CommandLog.kind(), DialogKind::CommandLog);
    assert_eq!(ModalState::SprintDetails.kind(), DialogKind::SprintDetails);
}
