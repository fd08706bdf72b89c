use tira::actions::Action;
use tira::app_tab::{ApplicationTab, Screen};
use tira::board::BoardAction;
use tira::dropdown::DropdownAction;
use tira::filter::FilterAction;
use tira::filtered_tree::FilteredTreeAction;
use tira::help::HelpDialogAction;
use tira::issue_columns::JiraFilteredTreeAction;
use tira::key_routing::{
    input_mode, move_help_selection, overlay_captures_keys, route_key, DropdownKind, InputMode,
    KeyContext, KeyOutcome,
};
use tira::keymap::KeyBindings;
use tira::keys::{KeyCode, KeyEvent, KeyModifiers};
use tira::setup::SetupAction;
use tira::tree::TreeAction;

fn press(c: char) -> KeyEvent {
    KeyEvent::new(KeyCode::Char(c), KeyModifiers::none())
}

fn ctrl(c: char) -> KeyEvent {
    KeyEvent::new(KeyCode::Char(c), KeyModifiers::control_only())
}

fn main_list() -> KeyContext {
    KeyContext {
        screen: Screen::Main,
        active_tab: ApplicationTab::List,
        leader_pending: false,
        help_open: false,
        command_log_open: false,
        sprint_details_open: false,
        overlay: None,
        overlay_filter_focused: false,
        column_dropdown_open: false,
        column_dropdown_filter_focused: false,
        list_filter_focused: false,
        board_filter_focused: false,
        timeline_filter_focused: false,
    }
}

#[test]
fn leader_then_key_selects_a_leader_action() {
    let keys = KeyBindings::default();
    let context = KeyContext { leader_pending: true, ..main_list() };
    assert_eq!(route_key(&context, &keys, press('b')), KeyOutcome::AfterLeader(Some(Action::GoToBoard)));
    assert_eq!(route_key(&context, &keys, press('z')), KeyOutcome::AfterLeader(None));
    assert_eq!(route_key(&context, &keys, ctrl('q')), KeyOutcome::AfterLeader(Some(Action::Quit)));
}

#[test]
fn help_dialog_takes_every_key() {
    let keys = KeyBindings::default();
    let context = KeyContext { help_open: true, ..main_list() };
    assert_eq!(route_key(&context, &keys, press('j')), KeyOutcome::Help(HelpDialogAction::Down));
    assert_eq!(route_key(&context, &keys, ctrl('q')), KeyOutcome::Help(HelpDialogAction::NoOp));
}

#[test]
fn global_keys_yield_to_text_input() {
    let keys = KeyBindings::default();
    assert_eq!(route_key(&main_list(), &keys, press('?')), KeyOutcome::Dispatch(Action::OpenHelp));
    assert_eq!(route_key(&main_list(), &keys, press('R')), KeyOutcome::Dispatch(Action::ReloadList));
    let board = KeyContext { active_tab: ApplicationTab::Board, ..main_list() };
    assert_eq!(route_key(&board, &keys, press('R')), KeyOutcome::Dispatch(Action::ReloadBoard));
    let typing = KeyContext { list_filter_focused: true, ..main_list() };
    assert_eq!(input_mode(&typing), InputMode::Input);
    assert!(overlay_captures_keys(&typing));
    assert_eq!(route_key(&typing, &keys, press('R')), KeyOutcome::ListFilter(FilterAction::Text('R')));
    assert_eq!(route_key(&typing, &keys, press('?')), KeyOutcome::Dispatch(Action::OpenHelp));
    assert_eq!(
        route_key(&typing, &keys, ctrl('k')),
        KeyOutcome::Dispatch(Action::JiraFilteredTree(JiraFilteredTreeAction::FilteredTree(
            FilteredTreeAction::Tree(TreeAction::MoveUp)
        )))
    );
    assert_eq!(route_key(&typing, &keys, ctrl('q')), KeyOutcome::Dispatch(Action::Quit));
}

#[test]
fn overlays_route_keys_to_their_dropdown() {
    let keys = KeyBindings::default();
    let quick = KeyContext { overlay: Some(DropdownKind::QuickSwitcher), ..main_list() };
    assert_eq!(
        route_key(&quick, &keys, press('j')),
        KeyOutcome::Dispatch(Action::QuickSwitcher(DropdownAction::MoveDown))
    );
    assert_eq!(
        route_key(&quick, &keys, ctrl('[')),
        KeyOutcome::Dispatch(Action::QuickSwitcher(DropdownAction::Close))
    );
    let searching = KeyContext { overlay_filter_focused: true, ..quick };
    assert_eq!(
        route_key(&searching, &keys, press('x')),
        KeyOutcome::Dispatch(Action::QuickSwitcher(DropdownAction::Filter(FilterAction::Text('x'))))
    );
    assert_eq!(
        route_key(&searching, &keys, KeyEvent::new(KeyCode::Enter, KeyModifiers::none())),
        KeyOutcome::Dispatch(Action::QuickSwitcher(DropdownAction::Filter(FilterAction::Submit)))
    );
    assert_eq!(
        route_key(&searching, &keys, KeyEvent::new(KeyCode::Home, KeyModifiers::none())),
        KeyOutcome::Dispatch(Action::QuickSwitcher(DropdownAction::GoToStart))
    );
}

#[test]
fn screens_and_dialogs_route_in_order() {
    let keys = KeyBindings::default();
    let setup = KeyContext { screen: Screen::Setup, ..main_list() };
    assert_eq!(route_key(&setup, &keys, press('a')), KeyOutcome::Setup(SetupAction::Text('a')));
    let log = KeyContext { command_log_open: true, ..main_list() };
    assert_eq!(route_key(&log, &keys, press('j')), KeyOutcome::Dispatch(Action::ScrollCommandLog(1)));
    let sprint = KeyContext { sprint_details_open: true, ..main_list() };
    assert_eq!(route_key(&sprint, &keys, press('d')), KeyOutcome::Dispatch(Action::CloseSprintDetails));
    let columns = KeyContext { column_dropdown_open: true, ..main_list() };
    assert_eq!(
        route_key(&columns, &keys, press('c')),
        KeyOutcome::Dispatch(Action::JiraFilteredTree(JiraFilteredTreeAction::OpenColumns))
    );
    let board_search = KeyContext {
        active_tab: ApplicationTab::Board,
        board_filter_focused: true,
        ..main_list()
    };
    assert_eq!(route_key(&board_search, &keys, press('h')), KeyOutcome::BoardFilter(FilterAction::Text('h')));
}

#[test]
fn board_and_timeline_tabs_filter_list_actions() {
    let keys = KeyBindings::default();
    let board = KeyContext { active_tab: ApplicationTab::Board, ..main_list() };
    assert_eq!(route_key(&board, &keys, press('h')), KeyOutcome::Dispatch(Action::Board(BoardAction::MoveLeft)));
    assert_eq!(route_key(&board, &keys, press('r')), KeyOutcome::Dispatch(Action::ToggleBoardGrouping));
    assert_eq!(route_key(&board, &keys, KeyEvent::new(KeyCode::Enter, KeyModifiers::none())), KeyOutcome::Ignored);
    let timeline = KeyContext { active_tab: ApplicationTab::Timeline, ..main_list() };
    assert_eq!(route_key(&timeline, &keys, press('L')), KeyOutcome::Ignored);
    assert_eq!(
        route_key(&timeline, &keys, press('j')),
        KeyOutcome::Dispatch(Action::JiraFilteredTree(JiraFilteredTreeAction::FilteredTree(
            FilteredTreeAction::Tree(TreeAction::MoveDown)
        )))
    );
    assert_eq!(route_key(&main_list(), &keys, press('L')), KeyOutcome::Dispatch(Action::ScrollListHorizontal(12)));
}

#[test]
fn help_selection_stays_among_the_entries() {
    assert_eq!(move_help_selection(0, -1, 5), 0);
    assert_eq!(move_help_selection(3, 4, 5), 4);
    assert_eq!(move_help_selection(2, 1, 5), 3);
    assert_eq!(move_help_selection(2, 1, 0), 0);
    assert_eq!(move_help_selection(usize::MAX, 4, usize::MAX), usize::MAX - 1);
}
