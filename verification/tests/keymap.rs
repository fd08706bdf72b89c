use tira::keymap_config::{key_from_setting, keys_from_setting, setting_key_list, ConfigValue};
use tira::actions::{Action, BoardTicketDirection, QuickAction, TicketDialogAction, TimelineAction};
use tira::app_tab::Screen;
use tira::board::BoardAction;
use tira::dropdown::DropdownAction;
use tira::filter::FilterAction;
use tira::filtered_tree::FilteredTreeAction;
use tira::help::{HelpContext, HelpDialogAction, HelpScope};
use tira::issue_columns::JiraFilteredTreeAction;
use tira::keymap::KeyBindings;
use tira::keys::{parse_key, KeyCode, KeyEvent, KeyModifiers, KeySpec};
use tira::setup::SetupAction;
use tira::tabs::TabAction;
use tira::tree::TreeAction;

fn press(c: char) -> KeyEvent {
    KeyEvent::new(KeyCode::Char(c), KeyModifiers::none())
}

fn ctrl(c: char) -> KeyEvent {
    KeyEvent::new(KeyCode::Char(c), KeyModifiers::control_only())
}

fn shift(c: char) -> KeyEvent {
    KeyEvent::new(KeyCode::Char(c), KeyModifiers::shift_only())
}

fn code(code: KeyCode) -> KeyEvent {
    KeyEvent::new(code, KeyModifiers::none())
}

#[test]
fn parse_key_reads_modifiers_words_and_single_characters() {
    assert_eq!(
        parse_key("ctrl+a"),
        Some(KeySpec::code_with_modifiers(KeyCode::Char('a'), KeyModifiers::control_only()))
    );
    assert_eq!(parse_key("shift+G"), Some(KeySpec::shifted('g')));
    assert_eq!(parse_key("  esc "), Some(KeySpec::code(KeyCode::Esc)));
    assert_eq!(parse_key("pagedown"), Some(KeySpec::code(KeyCode::PageDown)));
    assert_eq!(parse_key("space"), Some(KeySpec::plain(' ')));
    assert_eq!(parse_key("G"), Some(KeySpec::shifted('g')));
    assert_eq!(parse_key("j"), Some(KeySpec::plain('j')));
}

#[test]
fn parse_key_rejects_what_names_no_key() {
    assert_eq!(parse_key(""), None);
    assert_eq!(parse_key("ctrl+"), None);
    assert_eq!(parse_key("shift+"), None);
    assert_eq!(parse_key("ab"), None);
    assert_eq!(parse_key("ctrl+ab"), None);
    assert_eq!(parse_key("Escape"), None);
}

#[test]
fn key_labels_show_modifiers_and_names() {
    let ctrl_x = KeySpec::code_with_modifiers(KeyCode::Char('x'), KeyModifiers::control_only());
    assert_eq!(ctrl_x.label(), "⌃x");
    let alt_b = KeySpec::code_with_modifiers(KeyCode::Char('b'), KeyModifiers::alt_only());
    assert_eq!(alt_b.label(), "⌥b");
    assert_eq!(KeySpec::shifted('g').label(), "G");
    assert_eq!(KeySpec::shifted('/').label(), "/");
    assert_eq!(KeySpec::code(KeyCode::BackTab).label(), "⇧Tab");
    assert_eq!(
        KeySpec::code_with_modifiers(KeyCode::Left, KeyModifiers::shift_only()).label(),
        "Shift+Left"
    );
    assert_eq!(KeySpec::plain(' ').label(), "Space");
    assert_eq!(KeySpec::code(KeyCode::F(12)).label(), "F(12)");
    assert_eq!(KeySpec::code(KeyCode::PageUp).label(), "PageUp");
}

#[test]
fn key_specs_match_presses() {
    let ctrl_k = KeySpec::code_with_modifiers(KeyCode::Char('k'), KeyModifiers::control_only());
    assert!(ctrl_k.matches(ctrl('k')));
    assert!(ctrl_k.matches(ctrl('K')));
    assert!(ctrl_k.matches(press('\u{b}')));
    assert!(!ctrl_k.matches(press('k')));
    assert!(KeySpec::plain('?').matches(shift('?')));
    assert!(!KeySpec::plain('a').matches(shift('a')));
    assert!(KeySpec::shifted('g').matches(press('G')));
    assert_eq!(KeySpec::from(press('G')), KeySpec::shifted('g'));
    assert!(KeySpec::from(ctrl('z')).matches(ctrl('z')));
}

#[test]
fn global_and_leader_keys_use_the_defaults() {
    let keys = KeyBindings::default();
    assert_eq!(keys.global_action_for(press('?')), Some(Action::OpenHelp));
    assert_eq!(keys.global_action_for(ctrl('x')), Some(Action::Leader));
    assert_eq!(keys.global_action_for(ctrl('k')), Some(Action::ToggleQuickSwitcher));
    assert_eq!(keys.global_action_for(press('R')), Some(Action::ReloadList));
    assert_eq!(keys.global_action_for(ctrl('q')), Some(Action::Quit));
    assert_eq!(keys.global_action_for(press('\u{11}')), Some(Action::Quit));
    assert_eq!(keys.global_action_for(press('j')), None);
    assert!(keys.is_forced_quit(ctrl('Q')));
    assert_eq!(keys.leader_action_for(press('b')), Action::GoToBoard);
    assert_eq!(keys.leader_action_for(press('c')), Action::ToggleCommandLog);
    assert_eq!(keys.leader_action_for(press('z')), Action::NoOp);
}

#[test]
fn board_keys_resolve_in_priority_order() {
    let keys = KeyBindings::default();
    assert_eq!(keys.board_action_for(press('[')), Action::Tabs(TabAction::Previous));
    assert_eq!(keys.board_action_for(press('/')), Action::FocusBoardFilter);
    assert_eq!(keys.board_action_for(code(KeyCode::Esc)), Action::ClearBoardFilter);
    assert_eq!(keys.board_action_for(code(KeyCode::Enter)), Action::PlaceBoardTicketMoveMode);
    assert_eq!(keys.board_action_for(press('h')), Action::Board(BoardAction::MoveLeft));
    assert_eq!(
        keys.board_action_for(press('H')),
        Action::MoveBoardTicket(BoardTicketDirection::Left)
    );
    assert_eq!(keys.board_action_for(press('j')), Action::Board(BoardAction::MoveDown));
    assert_eq!(keys.board_action_for(ctrl('d')), Action::Board(BoardAction::HalfPageDown));
    assert_eq!(
        keys.board_action_for(code(KeyCode::PageUp)),
        Action::Board(BoardAction::HalfPageUp)
    );
    assert_eq!(keys.board_action_for(press('r')), Action::ToggleBoardGrouping);
    assert_eq!(keys.board_action_for(press('g')), Action::Board(BoardAction::GoToStartPrefix));
    assert_eq!(keys.board_action_for(code(KeyCode::End)), Action::Board(BoardAction::GoToEnd));
    assert_eq!(keys.board_action_for(press('q')), Action::NoOp);
}

#[test]
fn list_and_timeline_keys_share_the_tree_bindings() {
    let keys = KeyBindings::default();
    assert_eq!(keys.jira_filtered_tree_action_for(press('L')), Action::ScrollListHorizontal(12));
    assert_eq!(keys.jira_filtered_tree_action_for(press('H')), Action::ScrollListHorizontal(-12));
    assert_eq!(
        keys.jira_filtered_tree_action_for(press('c')),
        Action::JiraFilteredTree(JiraFilteredTreeAction::OpenColumns)
    );
    assert_eq!(
        keys.jira_filtered_tree_action_for(press('y')),
        Action::JiraFilteredTree(JiraFilteredTreeAction::YankIssueUrlPrefix)
    );
    assert_eq!(
        keys.action_for(press('k')),
        Action::JiraFilteredTree(JiraFilteredTreeAction::FilteredTree(FilteredTreeAction::Tree(
            TreeAction::MoveUp
        )))
    );
    assert_eq!(
        keys.filtered_tree_action_for(ctrl('c')),
        Some(FilteredTreeAction::Tree(TreeAction::CollapseAll))
    );
    assert_eq!(keys.filtered_tree_action_for(code(KeyCode::Esc)), Some(FilteredTreeAction::ClearFilter));
    assert_eq!(keys.timeline_action_for(press('H')), Action::Timeline(TimelineAction::ScrollLeft));
    assert_eq!(
        keys.timeline_action_for(press('l')),
        Action::Timeline(TimelineAction::Tree(TreeAction::Expand))
    );
    assert_eq!(keys.timeline_action_for(press('/')), Action::Timeline(TimelineAction::FocusFilter));
    assert_eq!(keys.timeline_action_for(press('c')), Action::NoOp);
}

#[test]
fn dialog_keys_close_scroll_and_quit() {
    let keys = KeyBindings::default();
    assert_eq!(keys.command_log_action_for(code(KeyCode::Esc)), Action::CloseCommandLog);
    assert_eq!(keys.command_log_action_for(ctrl('q')), Action::Quit);
    assert_eq!(keys.command_log_action_for(code(KeyCode::Down)), Action::ScrollCommandLog(1));
    assert_eq!(keys.command_log_action_for(ctrl('u')), Action::HalfPageCommandLog(-1));
    assert_eq!(keys.command_log_action_for(code(KeyCode::PageDown)), Action::PageCommandLog(1));
    assert_eq!(keys.command_log_action_for(press('g')), Action::CommandLogToStartPrefix);
    assert_eq!(keys.sprint_details_action_for(press('d')), Action::CloseSprintDetails);
    assert_eq!(keys.ticket_dialog_action_for(press(']')), Action::TicketDialog(TicketDialogAction::NextTab));
    assert_eq!(keys.ticket_dialog_action_for(code(KeyCode::Esc)), Action::CloseTicketDialog);
    assert_eq!(keys.help_dialog_action_for(press('?')), HelpDialogAction::Close);
    assert_eq!(keys.help_dialog_action_for(press('j')), HelpDialogAction::Down);
    assert_eq!(keys.help_dialog_action_for(code(KeyCode::Home)), HelpDialogAction::First);
    assert_eq!(keys.help_dialog_action_for(press('G')), HelpDialogAction::Last);
}

#[test]
fn dropdown_keys_differ_with_the_search_focused() {
    let keys = KeyBindings::default();
    assert_eq!(keys.project_dropdown_action_for(code(KeyCode::Esc)), DropdownAction::Close);
    assert_eq!(keys.project_dropdown_action_for(press('/')), DropdownAction::FocusFilter);
    assert_eq!(keys.project_dropdown_action_for(press(' ')), DropdownAction::ToggleSelected);
    assert_eq!(keys.project_dropdown_action_for(code(KeyCode::Home)), DropdownAction::GoToStart);
    assert_eq!(keys.theme_dropdown_action_for(press('j')), DropdownAction::MoveDown);
    assert_eq!(
        keys.dropdown_action_for(press('k')),
        JiraFilteredTreeAction::Dropdown(DropdownAction::MoveUp)
    );
    assert_eq!(
        keys.column_dropdown_context_action_for(press('c')),
        Some(JiraFilteredTreeAction::OpenColumns)
    );
    assert!(keys.dropdown_close_matches(ctrl('[')));
    assert_eq!(keys.dropdown_filter_focused_action_for(ctrl(' ')), DropdownAction::ToggleSelected);
    assert_eq!(
        keys.dropdown_filter_focused_action_for(code(KeyCode::Enter)),
        DropdownAction::Filter(FilterAction::Submit)
    );
    assert_eq!(
        keys.dropdown_filter_focused_action_for(ctrl('j')),
        DropdownAction::Filter(FilterAction::MoveSelectionDown)
    );
    assert_eq!(
        keys.dropdown_filter_focused_action_for(press('x')),
        DropdownAction::Filter(FilterAction::Text('x'))
    );
}

#[test]
fn text_inputs_edit_with_control_and_alt_keys() {
    let keys = KeyBindings::default();
    assert_eq!(keys.filter_action_for(ctrl('a')), FilterAction::MoveCursorStart);
    assert_eq!(keys.filter_action_for(ctrl('k')), FilterAction::MoveSelectionUp);
    let alt_d = KeyEvent::new(KeyCode::Char('d'), KeyModifiers::alt_only());
    assert_eq!(keys.filter_action_for(alt_d), FilterAction::DeleteWordRight);
    assert_eq!(keys.filter_action_for(press('x')), FilterAction::Text('x'));
    assert_eq!(keys.filter_action_for(shift('X')), FilterAction::Text('X'));
    assert_eq!(keys.filter_action_for(ctrl('q')), FilterAction::Quit);
    assert_eq!(keys.filter_action_for(code(KeyCode::Enter)), FilterAction::Exit);
    assert_eq!(keys.filter_action_for(code(KeyCode::Backspace)), FilterAction::Backspace);
    assert_eq!(keys.filter_action_for(code(KeyCode::Delete)), FilterAction::Delete);
    assert_eq!(keys.filter_action_for(code(KeyCode::Up)), FilterAction::NoOp);
    assert_eq!(keys.setup_action_for(ctrl('c')), SetupAction::Quit);
    assert_eq!(keys.setup_action_for(ctrl('k')), SetupAction::DeleteToEnd);
    assert_eq!(keys.setup_action_for(code(KeyCode::Tab)), SetupAction::NextField);
    assert_eq!(keys.setup_action_for(code(KeyCode::BackTab)), SetupAction::PreviousField);
    assert_eq!(keys.setup_action_for(code(KeyCode::Enter)), SetupAction::Submit);
    assert_eq!(keys.setup_action_for(press('a')), SetupAction::Text('a'));
    assert_eq!(keys.setup_action_for(code(KeyCode::Delete)), SetupAction::Delete);
}

#[test]
fn configuration_text_overrides_bindings() {
    let text = "[nav]\nup = \"w\"\ndown = [\"s\", \"down\", 3]\n[tree]\ncopy_issue_url = \"Y\"\n\
                move_up = []\n[global]\nquit = \"nonsense\"\n[leader]\nboard = \"ctrl+b\"\n";
    let keys = KeyBindings::from_toml_str(text);
    let defaults = KeyBindings::default();
    assert_eq!(keys.nav.up, vec![KeySpec::plain('w')]);
    assert_eq!(keys.nav.down, vec![KeySpec::plain('s'), KeySpec::code(KeyCode::Down)]);
    assert_eq!(keys.tree.yank_issue_url, KeySpec::shifted('y'));
    assert_eq!(keys.tree.move_up, None);
    assert_eq!(keys.quit, defaults.quit);
    assert_eq!(
        keys.leader_board,
        KeySpec::code_with_modifiers(KeyCode::Char('b'), KeyModifiers::control_only())
    );
    assert_eq!(keys.board_action_for(press('w')), Action::Board(BoardAction::MoveUp));
    assert_eq!(keys.nav.home, defaults.nav.home);
}

#[test]
fn text_that_is_not_toml_keeps_the_defaults() {
    assert_eq!(KeyBindings::from_toml_str("[nav\nup = "), KeyBindings::default());
    assert_eq!(KeyBindings::from_toml_str(""), KeyBindings::default());
}

#[test]
fn hint_lines_show_the_default_bindings() {
    let keys = KeyBindings::default();
    assert_eq!(
        keys.list_hint_text(),
        "/ search | c columns | a assignee | ⌃x leader | ⌃k actions | ? help"
    );
    assert_eq!(
        keys.setup_hint_text(),
        "Tab next field | ⇧Tab previous field | Enter load issues | ⌃c quit"
    );
    assert_eq!(keys.ticket_dialog_hint_text(), "Esc / ⌃[ close | [/] tabs | ? help");
    assert_eq!(
        keys.board_hint_text(),
        "/ search | d details | R reload | h/l columns | k/j cards | ⌃u/PageUp/⌃d/PageDown page | z / ⌃c/Z groups | ? help"
    );
    assert_eq!(
        keys.command_log_hint_text(),
        "Esc / ⌃[ close | k/j/Up/Down move | ⌃u/⌃d/PageUp/PageDown page | ? help"
    );
    assert_eq!(
        keys.timeline_hint_text(),
        "/ search | k/j move | l/h expand/collapse | Z/z / ⌃c all | H/Shift+Left/L/Shift+Right scroll | ⌃x leader | ? help"
    );
    assert_eq!(keys.shortcuts_hint_width(), 12);
    assert_eq!(keys.column_trigger_width(), 10);
    assert_eq!(keys.open_columns_label(), "c");
    assert_eq!(keys.board_details_label(), "d");
    assert_eq!(keys.board_group_label(), "r");
    assert_eq!(keys.open_help_label(), "?");
    assert_eq!(keys.quick_action_shortcut_label(QuickAction::Board), "⌃x b");
    assert_eq!(keys.quick_action_shortcut_label(QuickAction::ReloadTimeline), "R");
}

#[test]
fn help_entries_follow_screen_tab_and_context() {
    let keys = KeyBindings::default();
    let setup = keys.help_items(Screen::Setup, "List", false);
    assert_eq!(setup.len(), 4 + 9);
    assert_eq!(setup[0].binding, "Tab");
    assert_eq!(setup[0].summary, "Next field");
    assert_eq!(setup[4].scope, HelpScope::Global);
    assert_eq!(setup[4].binding, "⌃x");
    assert_eq!(
        setup[4].description,
        "Press leader, then c log, p project, s theme, or b / l / t tabs."
    );
    let list = keys.help_items(Screen::Main, "List", false);
    assert_eq!(list.len(), 1 + 14 + 9);
    assert_eq!(list[0].binding, "[/]");
    assert_eq!(
        list[3].description,
        "Move selection (⌃u / ⌃d / PageUp / PageDown for paging, Home / End for edges)."
    );
    assert_eq!(list[4].binding, "gg / G / Home / End");
    assert_eq!(list[13].binding, "yy");
    let board = keys.help_items(Screen::Main, "Board", false);
    assert_eq!(board.len(), 1 + 15 + 9);
    assert_eq!(board[10].binding, "⌃u / PageUp / ⌃d / PageDown");
    assert_eq!(board[11].binding, "Home / End / G");
    let timeline = keys.help_items(Screen::Main, "Timeline", false);
    assert_eq!(timeline.len(), 1 + 7 + 9);
    assert_eq!(timeline[4].binding, "l / h / Space");
    let dropdown = keys.help_items(Screen::Main, "List", true);
    assert_eq!(dropdown.len(), 9 + 9);
    assert_eq!(dropdown[0].binding, "Space / ⌃Space");
    assert_eq!(dropdown[7].binding, "gg / G / Home / End");
    let log = keys.help_items_for_context(Screen::Main, "List", HelpContext::CommandLog);
    assert_eq!(log.len(), 4 + 9);
    assert_eq!(log[1].binding, "k / j / Up / Down");
    let ticket = keys.help_items_for_context(Screen::Main, "List", HelpContext::TicketDialog);
    assert_eq!(ticket[1].binding, "[ / ]");
}

#[test]
fn configuration_values_name_bindings() {
    let before = vec![parse_key("j").unwrap()];
    let list = ConfigValue::List(vec![Some(String::from("k")), None, Some(String::from("not a key at all")), Some(String::from("ctrl+u"))]);
    assert_eq!(setting_key_list(&list), vec![parse_key("k").unwrap(), parse_key("ctrl+u").unwrap()]);
    assert_eq!(keys_from_setting(&list, &before), vec![parse_key("k").unwrap(), parse_key("ctrl+u").unwrap()]);
    assert_eq!(keys_from_setting(&ConfigValue::Text(String::from("down")), &before), vec![parse_key("down").unwrap()]);
    assert_eq!(keys_from_setting(&ConfigValue::Missing, &before), before);
    assert_eq!(keys_from_setting(&ConfigValue::Other, &before), before);
    assert_eq!(keys_from_setting(&ConfigValue::List(vec![None]), &before), before);
    let one = parse_key("q").unwrap();
    assert_eq!(key_from_setting(&ConfigValue::Text(String::from("esc")), one), parse_key("esc").unwrap());
    assert_eq!(key_from_setting(&list, one), one);
    assert_eq!(key_from_setting(&ConfigValue::Text(String::from("not a key at all")), one), one);
}
