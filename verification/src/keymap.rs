//! The configurable key bindings, and the action each screen and overlay
//! resolves a key press to.
use vstd::prelude::*;
use crate::actions::{Action, BoardTicketDirection, TicketDialogAction, TimelineAction};
use crate::board::BoardAction;
use crate::dropdown::DropdownAction;
use crate::filter::FilterAction;
use crate::filtered_tree::FilteredTreeAction;
use crate::help::HelpDialogAction;
use crate::issue_columns::JiraFilteredTreeAction;
use crate::keys::{
    KeyCode, KeyEvent, KeyModifiers, KeySpec, is_ctrl_q, matches_any, no_modifiers, only_control,
    only_shift, spec_is_ctrl_q, spec_matches, spec_matches_any,
};
use crate::setup::SetupAction;
use crate::tabs::TabAction;
use crate::tree::TreeAction;

verus! {

pub open spec fn plain_key(c: char) -> KeySpec {
    KeySpec { code: KeyCode::Char(c), modifiers: no_modifiers() }
}

pub open spec fn shifted_key(c: char) -> KeySpec {
    KeySpec { code: KeyCode::Char(c), modifiers: only_shift() }
}

pub open spec fn ctrl_key(c: char) -> KeySpec {
    KeySpec { code: KeyCode::Char(c), modifiers: only_control() }
}

pub open spec fn bare_key(code: KeyCode) -> KeySpec {
    KeySpec { code, modifiers: no_modifiers() }
}

fn one(k: KeySpec) -> (r: Vec<KeySpec>)
    ensures
        r@ == seq![k],
{
    let mut v = Vec::new();
    v.push(k);
    v
}

fn two(a: KeySpec, b: KeySpec) -> (r: Vec<KeySpec>)
    ensures
        r@ == seq![a, b],
{
    let mut v = Vec::new();
    v.push(a);
    v.push(b);
    v
}

/// The navigation keys shared by every list-like view.
#[derive(Debug, Clone, PartialEq, Eq)]
pub struct NavBindings {
    pub up: Vec<KeySpec>,
    pub down: Vec<KeySpec>,
    pub half_page_up: Vec<KeySpec>,
    pub half_page_down: Vec<KeySpec>,
    pub page_up: Vec<KeySpec>,
    pub page_down: Vec<KeySpec>,
    pub goto_start_prefix: Vec<KeySpec>,
    pub goto_end: Vec<KeySpec>,
    pub home: Vec<KeySpec>,
    pub end: Vec<KeySpec>,
    pub arrow_up: Vec<KeySpec>,
    pub arrow_down: Vec<KeySpec>,
    pub scroll_left: Vec<KeySpec>,
    pub scroll_right: Vec<KeySpec>,
}

impl Default for NavBindings {
    fn default() -> (r: Self)
        ensures
            r.up@ == seq![plain_key('k')],
            r.down@ == seq![plain_key('j')],
            r.half_page_up@ == seq![ctrl_key('u')],
            r.half_page_down@ == seq![ctrl_key('d')],
            r.page_up@ == seq![bare_key(KeyCode::PageUp)],
            r.page_down@ == seq![bare_key(KeyCode::PageDown)],
            r.goto_start_prefix@ == seq![plain_key('g')],
            r.goto_end@ == seq![shifted_key('g')],
            r.home@ == seq![bare_key(KeyCode::Home)],
            r.end@ == seq![bare_key(KeyCode::End)],
            r.arrow_up@ == seq![bare_key(KeyCode::Up)],
            r.arrow_down@ == seq![bare_key(KeyCode::Down)],
            r.scroll_left@ == seq![
                shifted_key('h'),
                KeySpec { code: KeyCode::Left, modifiers: only_shift() },
            ],
            r.scroll_right@ == seq![
                shifted_key('l'),
                KeySpec { code: KeyCode::Right, modifiers: only_shift() },
            ],
    {
        NavBindings {
            up: one(KeySpec::plain('k')),
            down: one(KeySpec::plain('j')),
            half_page_up: one(
                KeySpec::code_with_modifiers(KeyCode::Char('u'), KeyModifiers::control_only()),
            ),
            half_page_down: one(
                KeySpec::code_with_modifiers(KeyCode::Char('d'), KeyModifiers::control_only()),
            ),
            page_up: one(KeySpec::code(KeyCode::PageUp)),
            page_down: one(KeySpec::code(KeyCode::PageDown)),
            goto_start_prefix: one(KeySpec::plain('g')),
            goto_end: one(KeySpec::shifted('g')),
            home: one(KeySpec::code(KeyCode::Home)),
            end: one(KeySpec::code(KeyCode::End)),
            arrow_up: one(KeySpec::code(KeyCode::Up)),
            arrow_down: one(KeySpec::code(KeyCode::Down)),
            scroll_left: two(
                KeySpec::shifted('h'),
                KeySpec::code_with_modifiers(KeyCode::Left, KeyModifiers::shift_only()),
            ),
            scroll_right: two(
                KeySpec::shifted('l'),
                KeySpec::code_with_modifiers(KeyCode::Right, KeyModifiers::shift_only()),
            ),
        }
    }
}

#[derive(Debug, Clone, PartialEq, Eq)]
pub struct TabsKeyBindings {
    pub previous: KeySpec,
    pub next: KeySpec,
}

impl Default for TabsKeyBindings {
    fn default() -> (r: Self)
        ensures
            r.previous == plain_key('['),
            r.next == plain_key(']'),
    {
        TabsKeyBindings { previous: KeySpec::plain('['), next: KeySpec::plain(']') }
    }
}

/// Tree keys; a `None` list falls back to the shared navigation keys.
#[derive(Debug, Clone, PartialEq, Eq)]
pub struct TreeKeyBindings {
    pub move_up: Option<Vec<KeySpec>>,
    pub move_down: Option<Vec<KeySpec>>,
    pub half_page_up: Option<Vec<KeySpec>>,
    pub half_page_down: Option<Vec<KeySpec>>,
    pub collapse: KeySpec,
    pub expand: KeySpec,
    pub toggle_expand: KeySpec,
    pub collapse_all: KeySpec,
    pub collapse_all_aliases: Vec<KeySpec>,
    pub expand_all: KeySpec,
    pub open_columns: KeySpec,
    pub yank_issue_url: KeySpec,
    pub open_assignee: KeySpec,
    pub assign_to_me: KeySpec,
    pub unassign: KeySpec,
    pub go_to_end: Option<Vec<KeySpec>>,
    pub go_to_start_prefix: Option<Vec<KeySpec>>,
    pub focus_filter: KeySpec,
}

impl Default for TreeKeyBindings {
    fn default() -> (r: Self)
        ensures
            r.move_up is None,
            r.move_down is None,
            r.half_page_up is None,
            r.half_page_down is None,
            r.collapse == plain_key('h'),
            r.expand == plain_key('l'),
            r.toggle_expand == plain_key(' '),
            r.collapse_all == plain_key('z'),
            r.collapse_all_aliases@ == seq![ctrl_key('c')],
            r.expand_all == shifted_key('z'),
            r.open_columns == plain_key('c'),
            r.yank_issue_url == plain_key('y'),
            r.open_assignee == plain_key('a'),
            r.assign_to_me == plain_key('i'),
            r.unassign == plain_key('u'),
            r.go_to_end is None,
            r.go_to_start_prefix is None,
            r.focus_filter == plain_key('/'),
    {
        TreeKeyBindings {
            move_up: None,
            move_down: None,
            half_page_up: None,
            half_page_down: None,
            collapse: KeySpec::plain('h'),
            expand: KeySpec::plain('l'),
            toggle_expand: KeySpec::plain(' '),
            collapse_all: KeySpec::plain('z'),
            collapse_all_aliases: one(
                KeySpec::code_with_modifiers(KeyCode::Char('c'), KeyModifiers::control_only()),
            ),
            expand_all: KeySpec::shifted('z'),
            open_columns: KeySpec::plain('c'),
            yank_issue_url: KeySpec::plain('y'),
            open_assignee: KeySpec::plain('a'),
            assign_to_me: KeySpec::plain('i'),
            unassign: KeySpec::plain('u'),
            go_to_end: None,
            go_to_start_prefix: None,
            focus_filter: KeySpec::plain('/'),
        }
    }
}

#[derive(Debug, Clone, PartialEq, Eq)]
pub struct BoardKeyBindings {
    pub move_left: Vec<KeySpec>,
    pub move_right: Vec<KeySpec>,
    pub move_up: Option<Vec<KeySpec>>,
    pub move_down: Option<Vec<KeySpec>>,
    pub page_up: Option<Vec<KeySpec>>,
    pub page_down: Option<Vec<KeySpec>>,
    pub first: Option<Vec<KeySpec>>,
    pub last: Option<Vec<KeySpec>>,
    pub move_ticket_left: Vec<KeySpec>,
    pub move_ticket_right: Vec<KeySpec>,
    pub move_ticket_up: Vec<KeySpec>,
    pub move_ticket_down: Vec<KeySpec>,
    pub toggle_move_mode: KeySpec,
    pub place_move_mode: KeySpec,
}

impl Default for BoardKeyBindings {
    fn default() -> (r: Self)
        ensures
            r.move_left@ == seq![plain_key('h')],
            r.move_right@ == seq![plain_key('l')],
            r.move_up is None,
            r.move_down is None,
            r.page_up is None,
            r.page_down is None,
            r.first is None,
            r.last is None,
            r.move_ticket_left@ == seq![shifted_key('h')],
            r.move_ticket_right@ == seq![shifted_key('l')],
            r.move_ticket_up@ == seq![shifted_key('k')],
            r.move_ticket_down@ == seq![shifted_key('j')],
            r.toggle_move_mode == plain_key('m'),
            r.place_move_mode == bare_key(KeyCode::Enter),
    {
        BoardKeyBindings {
            move_left: one(KeySpec::plain('h')),
            move_right: one(KeySpec::plain('l')),
            move_up: None,
            move_down: None,
            page_up: None,
            page_down: None,
            first: None,
            last: None,
            move_ticket_left: one(KeySpec::shifted('h')),
            move_ticket_right: one(KeySpec::shifted('l')),
            move_ticket_up: one(KeySpec::shifted('k')),
            move_ticket_down: one(KeySpec::shifted('j')),
            toggle_move_mode: KeySpec::plain('m'),
            place_move_mode: KeySpec::code(KeyCode::Enter),
        }
    }
}

#[derive(Debug, Clone, PartialEq, Eq)]
pub struct CommandLogKeyBindings {
    pub close: KeySpec,
    pub move_up: Option<Vec<KeySpec>>,
    pub move_down: Option<Vec<KeySpec>>,
    pub half_page_up: Option<Vec<KeySpec>>,
    pub half_page_down: Option<Vec<KeySpec>>,
    pub first: Option<Vec<KeySpec>>,
    pub last: Option<Vec<KeySpec>>,
}

impl Default for CommandLogKeyBindings {
    fn default() -> (r: Self)
        ensures
            r.close == bare_key(KeyCode::Esc),
            r.move_up is None,
            r.move_down is None,
            r.half_page_up is None,
            r.half_page_down is None,
            r.first is None,
            r.last is None,
    {
        CommandLogKeyBindings {
            close: KeySpec::code(KeyCode::Esc),
            move_up: None,
            move_down: None,
            half_page_up: None,
            half_page_down: None,
            first: None,
            last: None,
        }
    }
}

#[derive(Debug, Clone, PartialEq, Eq)]
pub struct DropdownKeyBindings {
    pub close: KeySpec,
    pub focus_filter: KeySpec,
    pub submit: KeySpec,
    pub toggle_selected: KeySpec,
    pub submit_from_filter: KeySpec,
    pub toggle_from_filter: KeySpec,
    pub filter_move_up: KeySpec,
    pub filter_move_down: KeySpec,
    pub filter_clear: KeySpec,
    pub move_up: Option<Vec<KeySpec>>,
    pub move_down: Option<Vec<KeySpec>>,
    pub half_page_up: Option<Vec<KeySpec>>,
    pub half_page_down: Option<Vec<KeySpec>>,
    pub first: Option<Vec<KeySpec>>,
    pub last: Option<Vec<KeySpec>>,
}

impl Default for DropdownKeyBindings {
    fn default() -> (r: Self)
        ensures
            r.close == bare_key(KeyCode::Esc),
            r.focus_filter == plain_key('/'),
            r.submit == bare_key(KeyCode::Enter),
            r.toggle_selected == plain_key(' '),
            r.submit_from_filter == (KeySpec { code: KeyCode::Enter, modifiers: only_control() }),
            r.toggle_from_filter == ctrl_key(' '),
            r.filter_move_up == ctrl_key('k'),
            r.filter_move_down == ctrl_key('j'),
            r.filter_clear == ctrl_key('c'),
            r.move_up is None,
            r.move_down is None,
            r.half_page_up is None,
            r.half_page_down is None,
            r.first is None,
            r.last is None,
    {
        DropdownKeyBindings {
            close: KeySpec::code(KeyCode::Esc),
            focus_filter: KeySpec::plain('/'),
            submit: KeySpec::code(KeyCode::Enter),
            toggle_selected: KeySpec::plain(' '),
            submit_from_filter: KeySpec::code_with_modifiers(
                KeyCode::Enter,
                KeyModifiers::control_only(),
            ),
            toggle_from_filter: KeySpec::code_with_modifiers(
                KeyCode::Char(' '),
                KeyModifiers::control_only(),
            ),
            filter_move_up: KeySpec::code_with_modifiers(
                KeyCode::Char('k'),
                KeyModifiers::control_only(),
            ),
            filter_move_down: KeySpec::code_with_modifiers(
                KeyCode::Char('j'),
                KeyModifiers::control_only(),
            ),
            filter_clear: KeySpec::code_with_modifiers(
                KeyCode::Char('c'),
                KeyModifiers::control_only(),
            ),
            move_up: None,
            move_down: None,
            half_page_up: None,
            half_page_down: None,
            first: None,
            last: None,
        }
    }
}

#[derive(Debug, Clone, PartialEq, Eq)]
pub struct HelpKeyBindings {
    pub close: KeySpec,
    pub move_up: Option<Vec<KeySpec>>,
    pub move_down: Option<Vec<KeySpec>>,
    pub page_up: Option<Vec<KeySpec>>,
    pub page_down: Option<Vec<KeySpec>>,
    pub first: Option<Vec<KeySpec>>,
    pub last: Option<Vec<KeySpec>>,
}

impl Default for HelpKeyBindings {
    fn default() -> (r: Self)
        ensures
            r.close == bare_key(KeyCode::Esc),
            r.move_up is None,
            r.move_down is None,
            r.page_up is None,
            r.page_down is None,
            r.first is None,
            r.last is None,
    {
        HelpKeyBindings {
            close: KeySpec::code(KeyCode::Esc),
            move_up: None,
            move_down: None,
            page_up: None,
            page_down: None,
            first: None,
            last: None,
        }
    }
}

/// Every key binding of the application.
#[derive(Debug, Clone, PartialEq, Eq)]
pub struct KeyBindings {
    pub nav: NavBindings,
    pub tabs: TabsKeyBindings,
    pub board: BoardKeyBindings,
    pub tree: TreeKeyBindings,
    pub command_log: CommandLogKeyBindings,
    pub close: Vec<KeySpec>,
    pub quit: KeySpec,
    pub reload_list: KeySpec,
    pub board_details: KeySpec,
    pub board_group: KeySpec,
    pub leader: KeySpec,
    pub leader_command_log: KeySpec,
    pub leader_project: KeySpec,
    pub leader_theme: KeySpec,
    pub leader_board: KeySpec,
    pub leader_list: KeySpec,
    pub leader_timeline: KeySpec,
    pub quick_switcher: KeySpec,
    pub open_ticket: KeySpec,
    pub close_ticket: KeySpec,
    pub open_help: KeySpec,
    pub dropdown: DropdownKeyBindings,
    pub help: HelpKeyBindings,
    pub setup_next_field: KeySpec,
    pub setup_previous_field: KeySpec,
    pub setup_submit: KeySpec,
    pub setup_backspace: KeySpec,
    pub setup_quit: KeySpec,
}

/// The bindings the application starts with.
pub open spec fn is_default(b: KeyBindings) -> bool {
    &&& b.close@ == seq![bare_key(KeyCode::Esc), ctrl_key('[')]
    &&& b.quit == ctrl_key('q')
    &&& b.reload_list == shifted_key('r')
    &&& b.board_details == plain_key('d')
    &&& b.board_group == plain_key('r')
    &&& b.leader == ctrl_key('x')
    &&& b.leader_command_log == plain_key('c')
    &&& b.leader_project == plain_key('p')
    &&& b.leader_theme == plain_key('s')
    &&& b.leader_board == plain_key('b')
    &&& b.leader_list == plain_key('l')
    &&& b.leader_timeline == plain_key('t')
    &&& b.quick_switcher == ctrl_key('k')
    &&& b.open_ticket == bare_key(KeyCode::Enter)
    &&& b.close_ticket == bare_key(KeyCode::Esc)
    &&& b.open_help == plain_key('?')
    &&& b.setup_next_field == bare_key(KeyCode::Tab)
    &&& b.setup_previous_field == bare_key(KeyCode::BackTab)
    &&& b.setup_submit == bare_key(KeyCode::Enter)
    &&& b.setup_backspace == bare_key(KeyCode::Backspace)
    &&& b.setup_quit == ctrl_key('c')
    &&& b.nav.up@ == seq![plain_key('k')]
    &&& b.nav.down@ == seq![plain_key('j')]
    &&& b.nav.half_page_up@ == seq![ctrl_key('u')]
    &&& b.nav.half_page_down@ == seq![ctrl_key('d')]
    &&& b.nav.page_up@ == seq![bare_key(KeyCode::PageUp)]
    &&& b.nav.page_down@ == seq![bare_key(KeyCode::PageDown)]
    &&& b.nav.goto_start_prefix@ == seq![plain_key('g')]
    &&& b.nav.goto_end@ == seq![shifted_key('g')]
    &&& b.nav.home@ == seq![bare_key(KeyCode::Home)]
    &&& b.nav.end@ == seq![bare_key(KeyCode::End)]
    &&& b.nav.arrow_up@ == seq![bare_key(KeyCode::Up)]
    &&& b.nav.arrow_down@ == seq![bare_key(KeyCode::Down)]
    &&& b.nav.scroll_left@ == seq![shifted_key('h'), KeySpec { code: KeyCode::Left, modifiers: only_shift() }]
    &&& b.nav.scroll_right@ == seq![shifted_key('l'), KeySpec { code: KeyCode::Right, modifiers: only_shift() }]
    &&& b.tabs.previous == plain_key('[')
    &&& b.tabs.next == plain_key(']')
    &&& b.board.move_left@ == seq![plain_key('h')]
    &&& b.board.move_right@ == seq![plain_key('l')]
    &&& b.board.move_up is None
    &&& b.board.move_down is None
    &&& b.board.page_up is None
    &&& b.board.page_down is None
    &&& b.board.first is None
    &&& b.board.last is None
    &&& b.board.move_ticket_left@ == seq![shifted_key('h')]
    &&& b.board.move_ticket_right@ == seq![shifted_key('l')]
    &&& b.board.move_ticket_up@ == seq![shifted_key('k')]
    &&& b.board.move_ticket_down@ == seq![shifted_key('j')]
    &&& b.board.toggle_move_mode == plain_key('m')
    &&& b.board.place_move_mode == bare_key(KeyCode::Enter)
    &&& b.tree.move_up is None
    &&& b.tree.move_down is None
    &&& b.tree.half_page_up is None
    &&& b.tree.half_page_down is None
    &&& b.tree.collapse == plain_key('h')
    &&& b.tree.expand == plain_key('l')
    &&& b.tree.toggle_expand == plain_key(' ')
    &&& b.tree.collapse_all == plain_key('z')
    &&& b.tree.collapse_all_aliases@ == seq![ctrl_key('c')]
    &&& b.tree.expand_all == shifted_key('z')
    &&& b.tree.open_columns == plain_key('c')
    &&& b.tree.yank_issue_url == plain_key('y')
    &&& b.tree.open_assignee == plain_key('a')
    &&& b.tree.assign_to_me == plain_key('i')
    &&& b.tree.unassign == plain_key('u')
    &&& b.tree.go_to_end is None
    &&& b.tree.go_to_start_prefix is None
    &&& b.tree.focus_filter == plain_key('/')
    &&& b.command_log.close == bare_key(KeyCode::Esc)
    &&& b.command_log.move_up is None
    &&& b.command_log.move_down is None
    &&& b.command_log.half_page_up is None
    &&& b.command_log.half_page_down is None
    &&& b.command_log.first is None
    &&& b.command_log.last is None
    &&& b.dropdown.close == bare_key(KeyCode::Esc)
    &&& b.dropdown.focus_filter == plain_key('/')
    &&& b.dropdown.submit == bare_key(KeyCode::Enter)
    &&& b.dropdown.toggle_selected == plain_key(' ')
    &&& b.dropdown.submit_from_filter == (KeySpec { code: KeyCode::Enter, modifiers: only_control() })
    &&& b.dropdown.toggle_from_filter == ctrl_key(' ')
    &&& b.dropdown.filter_move_up == ctrl_key('k')
    &&& b.dropdown.filter_move_down == ctrl_key('j')
    &&& b.dropdown.filter_clear == ctrl_key('c')
    &&& b.dropdown.move_up is None
    &&& b.dropdown.move_down is None
    &&& b.dropdown.half_page_up is None
    &&& b.dropdown.half_page_down is None
    &&& b.dropdown.first is None
    &&& b.dropdown.last is None
    &&& b.help.close == bare_key(KeyCode::Esc)
    &&& b.help.move_up is None
    &&& b.help.move_down is None
    &&& b.help.page_up is None
    &&& b.help.page_down is None
    &&& b.help.first is None
    &&& b.help.last is None
}

impl Default for KeyBindings {
    fn default() -> (r: Self)
        ensures
            is_default(r),
    {
        KeyBindings {
            nav: NavBindings::default(),
            tabs: TabsKeyBindings::default(),
            board: BoardKeyBindings::default(),
            tree: TreeKeyBindings::default(),
            command_log: CommandLogKeyBindings::default(),
            close: two(
                KeySpec::code(KeyCode::Esc),
                KeySpec::code_with_modifiers(KeyCode::Char('['), KeyModifiers::control_only()),
            ),
            quit: KeySpec::code_with_modifiers(KeyCode::Char('q'), KeyModifiers::control_only()),
            reload_list: KeySpec::shifted('r'),
            board_details: KeySpec::plain('d'),
            board_group: KeySpec::plain('r'),
            leader: KeySpec::code_with_modifiers(KeyCode::Char('x'), KeyModifiers::control_only()),
            leader_command_log: KeySpec::plain('c'),
            leader_project: KeySpec::plain('p'),
            leader_theme: KeySpec::plain('s'),
            leader_board: KeySpec::plain('b'),
            leader_list: KeySpec::plain('l'),
            leader_timeline: KeySpec::plain('t'),
            quick_switcher: KeySpec::code_with_modifiers(
                KeyCode::Char('k'),
                KeyModifiers::control_only(),
            ),
            open_ticket: KeySpec::code(KeyCode::Enter),
            close_ticket: KeySpec::code(KeyCode::Esc),
            open_help: KeySpec::plain('?'),
            dropdown: DropdownKeyBindings::default(),
            help: HelpKeyBindings::default(),
            setup_next_field: KeySpec::code(KeyCode::Tab),
            setup_previous_field: KeySpec::code(KeyCode::BackTab),
            setup_submit: KeySpec::code(KeyCode::Enter),
            setup_backspace: KeySpec::code(KeyCode::Backspace),
            setup_quit: KeySpec::code_with_modifiers(KeyCode::Char('c'), KeyModifiers::control_only()),
        }
    }
}

/// A view's own keys when it has a non-empty list of them, else the shared
/// keys.
pub open spec fn resolved(ovr: Option<Vec<KeySpec>>, shared: Seq<KeySpec>) -> Seq<KeySpec> {
    match ovr {
        Some(keys) => if keys@.len() > 0 {
            keys@
        } else {
            shared
        },
        None => shared,
    }
}

pub(crate) fn resolve<'a>(ovr: &'a Option<Vec<KeySpec>>, shared: &'a [KeySpec]) -> (r: &'a [KeySpec])
    ensures
        r@ == resolved(*ovr, shared@),
{
    match ovr {
        Some(keys) => {
            if keys.len() > 0 {
                keys.as_slice()
            } else {
                shared
            }
        },
        None => shared,
    }
}

/// Cells panned per key press when the issue table scrolls sideways.
pub const LIST_H_SCROLL_STEP: i32 = 12;

/// The action of a key bound everywhere, if it is one.
pub open spec fn global_action(b: KeyBindings, key: KeyEvent) -> Option<Action> {
    if spec_matches(b.open_help, key) {
        Some(Action::OpenHelp)
    } else if spec_matches(b.leader, key) {
        Some(Action::Leader)
    } else if spec_matches(b.quick_switcher, key) {
        Some(Action::ToggleQuickSwitcher)
    } else if spec_matches(b.reload_list, key) {
        Some(Action::ReloadList)
    } else if spec_matches(b.quit, key) || spec_is_ctrl_q(key) {
        Some(Action::Quit)
    } else {
        None
    }
}

pub open spec fn close_matches_spec(b: KeyBindings, key: KeyEvent) -> bool {
    spec_matches_any(b.close@, key)
}

pub open spec fn context_close_spec(b: KeyBindings, close: KeySpec, key: KeyEvent) -> bool {
    spec_matches(close, key) || close_matches_spec(b, key)
}

/// The action a key press after the leader key selects.
pub open spec fn leader_action(b: KeyBindings, key: KeyEvent) -> Action {
    if spec_matches(b.leader_command_log, key) {
        Action::ToggleCommandLog
    } else if spec_matches(b.leader_project, key) {
        Action::ToggleProjectDropdown
    } else if spec_matches(b.leader_theme, key) {
        Action::ToggleThemeDropdown
    } else if spec_matches(b.leader_board, key) {
        Action::GoToBoard
    } else if spec_matches(b.leader_list, key) {
        Action::GoToList
    } else if spec_matches(b.leader_timeline, key) {
        Action::GoToTimeline
    } else {
        Action::NoOp
    }
}

/// The action a key press selects on the board.
pub open spec fn board_action(b: KeyBindings, key: KeyEvent) -> Action {
    if spec_matches(b.tabs.previous, key) {
        Action::Tabs(TabAction::Previous)
    } else if spec_matches(b.tabs.next, key) {
        Action::Tabs(TabAction::Next)
    } else if spec_matches(b.tree.focus_filter, key) {
        Action::FocusBoardFilter
    } else if close_matches_spec(b, key) {
        Action::ClearBoardFilter
    } else if spec_matches(b.board_details, key) {
        Action::ToggleSprintDetails
    } else if spec_matches(b.board.place_move_mode, key) {
        Action::PlaceBoardTicketMoveMode
    } else if spec_matches(b.open_ticket, key) {
        Action::OpenTicketDialog
    } else if spec_matches(b.tree.toggle_expand, key) {
        Action::Board(BoardAction::ToggleCollapse)
    } else if spec_matches(b.tree.collapse_all, key) {
        Action::Board(BoardAction::CollapseAllGroups)
    } else if spec_matches(b.tree.expand_all, key) {
        Action::Board(BoardAction::ExpandAllGroups)
    } else if spec_matches(b.tree.open_assignee, key) {
        Action::ToggleAssigneeDropdown
    } else if spec_matches(b.tree.assign_to_me, key) {
        Action::AssignSelectedToMe
    } else if spec_matches(b.tree.unassign, key) {
        Action::UnassignSelected
    } else if spec_matches(b.board.toggle_move_mode, key) {
        Action::ToggleBoardTicketMoveMode
    } else if spec_matches_any(b.board.move_ticket_left@, key) {
        Action::MoveBoardTicket(BoardTicketDirection::Left)
    } else if spec_matches_any(b.board.move_ticket_right@, key) {
        Action::MoveBoardTicket(BoardTicketDirection::Right)
    } else if spec_matches_any(b.board.move_ticket_up@, key) {
        Action::MoveBoardTicket(BoardTicketDirection::Up)
    } else if spec_matches_any(b.board.move_ticket_down@, key) {
        Action::MoveBoardTicket(BoardTicketDirection::Down)
    } else if spec_matches_any(b.board.move_left@, key) {
        Action::Board(BoardAction::MoveLeft)
    } else if spec_matches_any(b.board.move_right@, key) {
        Action::Board(BoardAction::MoveRight)
    } else if spec_matches_any(resolved(b.board.move_up, b.nav.up@), key) {
        Action::Board(BoardAction::MoveUp)
    } else if spec_matches_any(resolved(b.board.move_down, b.nav.down@), key) {
        Action::Board(BoardAction::MoveDown)
    } else if spec_matches_any(resolved(b.board.page_up, b.nav.half_page_up@), key)
        || spec_matches_any(b.nav.page_up@, key) {
        Action::Board(BoardAction::HalfPageUp)
    } else if spec_matches_any(resolved(b.board.page_down, b.nav.half_page_down@), key)
        || spec_matches_any(b.nav.page_down@, key) {
        Action::Board(BoardAction::HalfPageDown)
    } else if spec_matches(b.board_group, key) {
        Action::ToggleBoardGrouping
    } else if spec_matches_any(b.nav.goto_start_prefix@, key) {
        Action::Board(BoardAction::GoToStartPrefix)
    } else if spec_matches_any(resolved(b.board.first, b.nav.home@), key) {
        Action::Board(BoardAction::GoToStart)
    } else if spec_matches_any(resolved(b.board.last, b.nav.end@), key) || spec_matches_any(
        b.nav.goto_end@,
        key,
    ) {
        Action::Board(BoardAction::GoToEnd)
    } else {
        Action::NoOp
    }
}

/// The direction of a sideways-scroll key: -1 for left, 1 for right.
pub open spec fn horizontal_scroll(b: KeyBindings, key: KeyEvent) -> Option<i32> {
    if spec_matches_any(b.nav.scroll_left@, key) {
        Some(-1i32)
    } else if spec_matches_any(b.nav.scroll_right@, key) {
        Some(1i32)
    } else {
        None
    }
}

/// The tree action a key press selects in a filtered tree, if any.
pub open spec fn filtered_tree_action(b: KeyBindings, key: KeyEvent) -> Option<
    FilteredTreeAction,
> {
    if spec_matches_any(resolved(b.tree.move_up, b.nav.up@), key) {
        Some(FilteredTreeAction::Tree(TreeAction::MoveUp))
    } else if spec_matches_any(resolved(b.tree.move_down, b.nav.down@), key) {
        Some(FilteredTreeAction::Tree(TreeAction::MoveDown))
    } else if spec_matches_any(resolved(b.tree.half_page_up, b.nav.half_page_up@), key)
        || spec_matches_any(b.nav.page_up@, key) {
        Some(FilteredTreeAction::Tree(TreeAction::HalfPageUp))
    } else if spec_matches_any(resolved(b.tree.half_page_down, b.nav.half_page_down@), key)
        || spec_matches_any(b.nav.page_down@, key) {
        Some(FilteredTreeAction::Tree(TreeAction::HalfPageDown))
    } else if spec_matches(b.tree.collapse, key) {
        Some(FilteredTreeAction::Tree(TreeAction::Collapse))
    } else if spec_matches(b.tree.expand, key) {
        Some(FilteredTreeAction::Tree(TreeAction::Expand))
    } else if spec_matches(b.tree.toggle_expand, key) {
        Some(FilteredTreeAction::Tree(TreeAction::ToggleExpanded))
    } else if spec_matches(b.tree.collapse_all, key) || spec_matches_any(
        b.tree.collapse_all_aliases@,
        key,
    ) {
        Some(FilteredTreeAction::Tree(TreeAction::CollapseAll))
    } else if spec_matches(b.tree.expand_all, key) {
        Some(FilteredTreeAction::Tree(TreeAction::ExpandAll))
    } else if spec_matches_any(resolved(b.tree.go_to_end, b.nav.goto_end@), key)
        || spec_matches_any(b.nav.end@, key) {
        Some(FilteredTreeAction::Tree(TreeAction::GoToEnd))
    } else if spec_matches_any(b.nav.home@, key) {
        Some(FilteredTreeAction::Tree(TreeAction::GoToStart))
    } else if spec_matches_any(resolved(b.tree.go_to_start_prefix, b.nav.goto_start_prefix@), key) {
        Some(FilteredTreeAction::Tree(TreeAction::GotoPrefix))
    } else if spec_matches(b.tree.focus_filter, key) {
        Some(FilteredTreeAction::FocusFilter)
    } else if close_matches_spec(b, key) {
        Some(FilteredTreeAction::ClearFilter)
    } else {
        None
    }
}

/// The action a key press selects on the timeline.
pub open spec fn timeline_action(b: KeyBindings, key: KeyEvent) -> Action {
    if spec_matches(b.tabs.previous, key) {
        Action::Tabs(TabAction::Previous)
    } else if spec_matches(b.tabs.next, key) {
        Action::Tabs(TabAction::Next)
    } else if horizontal_scroll(b, key) is Some {
        if horizontal_scroll(b, key)->0 < 0 {
            Action::Timeline(TimelineAction::ScrollLeft)
        } else {
            Action::Timeline(TimelineAction::ScrollRight)
        }
    } else if spec_matches(b.open_ticket, key) {
        Action::OpenTicketDialog
    } else if spec_matches(b.tree.focus_filter, key) {
        Action::Timeline(TimelineAction::FocusFilter)
    } else if close_matches_spec(b, key) {
        Action::Timeline(TimelineAction::ClearFilter)
    } else {
        match filtered_tree_action(b, key) {
            Some(FilteredTreeAction::Tree(t)) => Action::Timeline(TimelineAction::Tree(t)),
            _ => Action::NoOp,
        }
    }
}

/// The action a key press selects in the issue list.
pub open spec fn jira_filtered_tree_action(b: KeyBindings, key: KeyEvent) -> Action {
    if spec_matches(b.tabs.previous, key) {
        Action::Tabs(TabAction::Previous)
    } else if spec_matches(b.tabs.next, key) {
        Action::Tabs(TabAction::Next)
    } else if horizontal_scroll(b, key) is Some {
        Action::ScrollListHorizontal((horizontal_scroll(b, key)->0 * LIST_H_SCROLL_STEP) as i32)
    } else if spec_matches(b.tree.open_columns, key) {
        Action::JiraFilteredTree(JiraFilteredTreeAction::OpenColumns)
    } else if spec_matches(b.tree.open_assignee, key) {
        Action::ToggleAssigneeDropdown
    } else if spec_matches(b.tree.assign_to_me, key) {
        Action::AssignSelectedToMe
    } else if spec_matches(b.tree.unassign, key) {
        Action::UnassignSelected
    } else if spec_matches(b.tree.yank_issue_url, key) {
        Action::JiraFilteredTree(JiraFilteredTreeAction::YankIssueUrlPrefix)
    } else if spec_matches(b.open_ticket, key) {
        Action::OpenTicketDialog
    } else {
        match filtered_tree_action(b, key) {
            Some(a) => Action::JiraFilteredTree(JiraFilteredTreeAction::FilteredTree(a)),
            None => Action::NoOp,
        }
    }
}

/// The action a key press selects in the command log.
pub open spec fn command_log_action(b: KeyBindings, key: KeyEvent) -> Action {
    if context_close_spec(b, b.command_log.close, key) {
        Action::CloseCommandLog
    } else if spec_is_ctrl_q(key) {
        Action::Quit
    } else if spec_matches_any(resolved(b.command_log.move_up, b.nav.up@), key)
        || spec_matches_any(b.nav.arrow_up@, key) {
        Action::ScrollCommandLog(-1isize)
    } else if spec_matches_any(resolved(b.command_log.move_down, b.nav.down@), key)
        || spec_matches_any(b.nav.arrow_down@, key) {
        Action::ScrollCommandLog(1isize)
    } else if spec_matches_any(resolved(b.command_log.half_page_up, b.nav.half_page_up@), key) {
        Action::HalfPageCommandLog(-1isize)
    } else if spec_matches_any(resolved(b.command_log.half_page_down, b.nav.half_page_down@), key) {
        Action::HalfPageCommandLog(1isize)
    } else if spec_matches_any(b.nav.page_up@, key) {
        Action::PageCommandLog(-1isize)
    } else if spec_matches_any(b.nav.page_down@, key) {
        Action::PageCommandLog(1isize)
    } else if spec_matches_any(resolved(b.command_log.first, b.nav.goto_start_prefix@), key) {
        Action::CommandLogToStartPrefix
    } else if spec_matches_any(b.nav.home@, key) {
        Action::CommandLogToStart
    } else if spec_matches_any(resolved(b.command_log.last, b.nav.goto_end@), key)
        || spec_matches_any(b.nav.end@, key) {
        Action::CommandLogToEnd
    } else {
        Action::NoOp
    }
}

/// The action a key press selects in the help dialog.
pub open spec fn help_dialog_action(b: KeyBindings, key: KeyEvent) -> HelpDialogAction {
    if spec_matches(b.open_help, key) || context_close_spec(b, b.help.close, key) {
        HelpDialogAction::Close
    } else if spec_matches_any(resolved(b.help.move_up, b.nav.up@), key) || spec_matches_any(
        b.nav.arrow_up@,
        key,
    ) {
        HelpDialogAction::Up
    } else if spec_matches_any(resolved(b.help.move_down, b.nav.down@), key)
        || spec_matches_any(b.nav.arrow_down@, key) {
        HelpDialogAction::Down
    } else if spec_matches_any(resolved(b.help.page_up, b.nav.half_page_up@), key)
        || spec_matches_any(b.nav.page_up@, key) {
        HelpDialogAction::PageUp
    } else if spec_matches_any(resolved(b.help.page_down, b.nav.half_page_down@), key)
        || spec_matches_any(b.nav.page_down@, key) {
        HelpDialogAction::PageDown
    } else if spec_matches_any(resolved(b.help.first, b.nav.goto_start_prefix@), key)
        || spec_matches_any(b.nav.home@, key) {
        HelpDialogAction::First
    } else if spec_matches_any(resolved(b.help.last, b.nav.goto_end@), key) || spec_matches_any(
        b.nav.end@,
        key,
    ) {
        HelpDialogAction::Last
    } else {
        HelpDialogAction::NoOp
    }
}

/// The dropdown action a key press selects while the dropdown's search input
/// is not focused.
pub open spec fn dropdown_key_action(b: KeyBindings, key: KeyEvent) -> DropdownAction {
    if context_close_spec(b, b.dropdown.close, key) {
        DropdownAction::Close
    } else if spec_matches(b.dropdown.focus_filter, key) {
        DropdownAction::FocusFilter
    } else if spec_matches_any(resolved(b.dropdown.half_page_up, b.nav.half_page_up@), key)
        || spec_matches_any(b.nav.page_up@, key) {
        DropdownAction::HalfPageUp
    } else if spec_matches_any(resolved(b.dropdown.half_page_down, b.nav.half_page_down@), key)
        || spec_matches_any(b.nav.page_down@, key) {
        DropdownAction::HalfPageDown
    } else if spec_matches_any(resolved(b.dropdown.last, b.nav.goto_end@), key)
        || spec_matches_any(b.nav.end@, key) {
        DropdownAction::GoToEnd
    } else if spec_matches_any(b.nav.home@, key) {
        DropdownAction::GoToStart
    } else if spec_matches_any(resolved(b.dropdown.first, b.nav.goto_start_prefix@), key) {
        DropdownAction::GotoPrefix
    } else if spec_matches(b.dropdown.submit, key) || spec_matches(b.dropdown.toggle_selected, key) {
        DropdownAction::ToggleSelected
    } else if spec_matches_any(resolved(b.dropdown.move_up, b.nav.up@), key)
        || spec_matches_any(b.nav.arrow_up@, key) {
        DropdownAction::MoveUp
    } else if spec_matches_any(resolved(b.dropdown.move_down, b.nav.down@), key)
        || spec_matches_any(b.nav.arrow_down@, key) {
        DropdownAction::MoveDown
    } else {
        DropdownAction::NoOp
    }
}

/// The editing action of a Ctrl key in a text input, if it has one.
pub open spec fn control_edit(code: KeyCode) -> Option<FilterAction> {
    match code {
        KeyCode::Char(c) => if c == 'a' {
            Some(FilterAction::MoveCursorStart)
        } else if c == 'e' {
            Some(FilterAction::MoveCursorEnd)
        } else if c == 'c' {
            Some(FilterAction::Clear)
        } else if c == 'w' {
            Some(FilterAction::DeleteWordLeft)
        } else if c == 'f' {
            Some(FilterAction::MoveCursorRight)
        } else if c == 'b' {
            Some(FilterAction::MoveCursorLeft)
        } else if c == 'k' {
            Some(FilterAction::MoveSelectionUp)
        } else if c == 'j' {
            Some(FilterAction::MoveSelectionDown)
        } else if c == 'u' {
            Some(FilterAction::DeleteToStart)
        } else {
            None
        },
        KeyCode::Left => Some(FilterAction::MoveCursorWordLeft),
        KeyCode::Right => Some(FilterAction::MoveCursorWordRight),
        KeyCode::Delete => Some(FilterAction::DeleteWordRight),
        _ => None,
    }
}

/// The editing action of an Alt key in a text input, if it has one.
pub open spec fn alt_edit(code: KeyCode) -> Option<FilterAction> {
    match code {
        KeyCode::Char(c) => if c == 'd' {
            Some(FilterAction::DeleteWordRight)
        } else if c == 'f' {
            Some(FilterAction::MoveCursorWordRight)
        } else if c == 'b' {
            Some(FilterAction::MoveCursorWordLeft)
        } else {
            None
        },
        _ => None,
    }
}

/// The action a key press selects in a focused search input.
pub open spec fn filter_key_action(b: KeyBindings, key: KeyEvent) -> FilterAction {
    if key.modifiers.control && control_edit(key.code) is Some {
        control_edit(key.code)->0
    } else if key.modifiers.alt && alt_edit(key.code) is Some {
        alt_edit(key.code)->0
    } else if (key.modifiers == no_modifiers() || key.modifiers == only_shift())
        && key.code is Char {
        FilterAction::Text(key.code->Char_0)
    } else if spec_is_ctrl_q(key) {
        FilterAction::Quit
    } else if close_matches_spec(b, key) || (key.code == KeyCode::Enter && !key.modifiers.control)
        || (key.code == KeyCode::Char('/') && key.modifiers.control) {
        FilterAction::Exit
    } else if key.code == KeyCode::Backspace {
        FilterAction::Backspace
    } else if key.modifiers == no_modifiers() {
        match key.code {
            KeyCode::Left => FilterAction::MoveCursorLeft,
            KeyCode::Right => FilterAction::MoveCursorRight,
            KeyCode::Delete => FilterAction::Delete,
            _ => FilterAction::NoOp,
        }
    } else {
        FilterAction::NoOp
    }
}

/// In a focused search input, a character typed alone or with Shift is
/// inserted as text, whatever the bindings.
pub proof fn lemma_typed_char_is_text(b: KeyBindings, key: KeyEvent)
    requires
        key.code is Char,
        key.modifiers == no_modifiers() || key.modifiers == only_shift(),
    ensures
        filter_key_action(b, key) == FilterAction::Text(key.code->Char_0),
{
}

/// The dropdown action a key press selects while the dropdown's search input
/// is focused.
pub open spec fn dropdown_filter_key_action(b: KeyBindings, key: KeyEvent) -> DropdownAction {
    if spec_matches(b.dropdown.toggle_from_filter, key) || spec_matches(
        b.dropdown.submit_from_filter,
        key,
    ) {
        DropdownAction::ToggleSelected
    } else if spec_matches(b.dropdown.submit, key) {
        DropdownAction::Filter(FilterAction::Submit)
    } else if spec_matches(b.dropdown.filter_move_up, key) {
        DropdownAction::Filter(FilterAction::MoveSelectionUp)
    } else if spec_matches(b.dropdown.filter_move_down, key) {
        DropdownAction::Filter(FilterAction::MoveSelectionDown)
    } else if spec_matches(b.dropdown.filter_clear, key) {
        DropdownAction::Filter(FilterAction::Clear)
    } else if spec_matches_any(resolved(b.dropdown.half_page_up, b.nav.half_page_up@), key)
        || spec_matches_any(b.nav.page_up@, key) {
        DropdownAction::HalfPageUp
    } else if spec_matches_any(resolved(b.dropdown.half_page_down, b.nav.half_page_down@), key)
        || spec_matches_any(b.nav.page_down@, key) {
        DropdownAction::HalfPageDown
    } else if spec_matches_any(resolved(b.dropdown.last, b.nav.goto_end@), key)
        || spec_matches_any(b.nav.end@, key) {
        DropdownAction::GoToEnd
    } else if spec_matches_any(b.nav.home@, key) {
        DropdownAction::GoToStart
    } else if spec_matches_any(resolved(b.dropdown.first, b.nav.goto_start_prefix@), key) {
        DropdownAction::GotoPrefix
    } else if context_close_spec(b, b.dropdown.close, key) {
        DropdownAction::Close
    } else {
        DropdownAction::Filter(filter_key_action(b, key))
    }
}

/// The editing action of a Ctrl key on the setup form, if it has one.
pub open spec fn setup_control_edit(code: KeyCode) -> Option<SetupAction> {
    match code {
        KeyCode::Char(c) => if c == 'a' {
            Some(SetupAction::MoveCursorStart)
        } else if c == 'e' {
            Some(SetupAction::MoveCursorEnd)
        } else if c == 'c' {
            Some(SetupAction::Clear)
        } else if c == 'w' {
            Some(SetupAction::DeleteWordLeft)
        } else if c == 'f' {
            Some(SetupAction::MoveCursorRight)
        } else if c == 'b' {
            Some(SetupAction::MoveCursorLeft)
        } else if c == 'k' {
            Some(SetupAction::DeleteToEnd)
        } else if c == 'u' {
            Some(SetupAction::DeleteToStart)
        } else {
            None
        },
        KeyCode::Left => Some(SetupAction::MoveCursorWordLeft),
        KeyCode::Right => Some(SetupAction::MoveCursorWordRight),
        KeyCode::Delete => Some(SetupAction::DeleteWordRight),
        _ => None,
    }
}

/// The editing action of an Alt key on the setup form, if it has one.
pub open spec fn setup_alt_edit(code: KeyCode) -> Option<SetupAction> {
    match code {
        KeyCode::Char(c) => if c == 'd' {
            Some(SetupAction::DeleteWordRight)
        } else if c == 'f' {
            Some(SetupAction::MoveCursorWordRight)
        } else if c == 'b' {
            Some(SetupAction::MoveCursorWordLeft)
        } else {
            None
        },
        _ => None,
    }
}

/// The action a key press selects on the setup form.
pub open spec fn setup_key_action(b: KeyBindings, key: KeyEvent) -> SetupAction {
    if spec_matches(b.setup_quit, key) {
        SetupAction::Quit
    } else if key.modifiers.control && setup_control_edit(key.code) is Some {
        setup_control_edit(key.code)->0
    } else if key.modifiers.alt && setup_alt_edit(key.code) is Some {
        setup_alt_edit(key.code)->0
    } else if (key.modifiers == no_modifiers() || key.modifiers == only_shift())
        && key.code is Char {
        SetupAction::Text(key.code->Char_0)
    } else if spec_matches(b.setup_next_field, key) {
        SetupAction::NextField
    } else if spec_matches(b.setup_previous_field, key) {
        SetupAction::PreviousField
    } else if spec_matches(b.setup_submit, key) {
        SetupAction::Submit
    } else if spec_matches(b.setup_backspace, key) {
        SetupAction::Backspace
    } else if key.modifiers == no_modifiers() {
        match key.code {
            KeyCode::Left => SetupAction::MoveCursorLeft,
            KeyCode::Right => SetupAction::MoveCursorRight,
            KeyCode::Delete => SetupAction::Delete,
            _ => SetupAction::NoOp,
        }
    } else {
        SetupAction::NoOp
    }
}

impl KeyBindings {
    /// The action of a key bound everywhere, if it is one.
    pub fn global_action_for(&self, key: KeyEvent) -> (r: Option<Action>)
        ensures
            r == global_action(*self, key),
    {
        if self.open_help.matches(key) {
            Some(Action::OpenHelp)
        } else if self.leader.matches(key) {
            Some(Action::Leader)
        } else if self.quick_switcher.matches(key) {
            Some(Action::ToggleQuickSwitcher)
        } else if self.reload_list.matches(key) {
            Some(Action::ReloadList)
        } else if self.quit.matches(key) || is_ctrl_q(key) {
            Some(Action::Quit)
        } else {
            None
        }
    }

    /// Ctrl+Q quits whatever the bindings say.
    pub fn is_forced_quit(&self, key: KeyEvent) -> (r: bool)
        ensures
            r == spec_is_ctrl_q(key),
    {
        is_ctrl_q(key)
    }

    fn close_matches(&self, key: KeyEvent) -> (r: bool)
        ensures
            r == close_matches_spec(*self, key),
    {
        matches_any(self.close.as_slice(), key)
    }

    fn context_close_matches(&self, close: KeySpec, key: KeyEvent) -> (r: bool)
        ensures
            r == context_close_spec(*self, close, key),
    {
        close.matches(key) || self.close_matches(key)
    }

    /// Whether the key closes a dropdown: its own close key or a shared one.
    pub fn dropdown_close_matches(&self, key: KeyEvent) -> (r: bool)
        ensures
            r == context_close_spec(*self, self.dropdown.close, key),
    {
        self.context_close_matches(self.dropdown.close, key)
    }

    /// The action a key press after the leader key selects.
    pub fn leader_action_for(&self, key: KeyEvent) -> (r: Action)
        ensures
            r == leader_action(*self, key),
    {
        if self.leader_command_log.matches(key) {
            Action::ToggleCommandLog
        } else if self.leader_project.matches(key) {
            Action::ToggleProjectDropdown
        } else if self.leader_theme.matches(key) {
            Action::ToggleThemeDropdown
        } else if self.leader_board.matches(key) {
            Action::GoToBoard
        } else if self.leader_list.matches(key) {
            Action::GoToList
        } else if self.leader_timeline.matches(key) {
            Action::GoToTimeline
        } else {
            Action::NoOp
        }
    }

    /// The action a key press selects in the issue list.
    pub fn action_for(&self, key: KeyEvent) -> (r: Action)
        ensures
            r == jira_filtered_tree_action(*self, key),
    {
        self.jira_filtered_tree_action_for(key)
    }

    /// The action a key press selects on the board.
    pub fn board_action_for(&self, key: KeyEvent) -> (r: Action)
        ensures
            r == board_action(*self, key),
    {
        let nav = &self.nav;
        let board = &self.board;
        if self.tabs.previous.matches(key) {
            Action::Tabs(TabAction::Previous)
        } else if self.tabs.next.matches(key) {
            Action::Tabs(TabAction::Next)
        } else if self.tree.focus_filter.matches(key) {
            Action::FocusBoardFilter
        } else if self.close_matches(key) {
            Action::ClearBoardFilter
        } else if self.board_details.matches(key) {
            Action::ToggleSprintDetails
        } else if board.place_move_mode.matches(key) {
            Action::PlaceBoardTicketMoveMode
        } else if self.open_ticket.matches(key) {
            Action::OpenTicketDialog
        } else if self.tree.toggle_expand.matches(key) {
            Action::Board(BoardAction::ToggleCollapse)
        } else if self.tree.collapse_all.matches(key) {
            Action::Board(BoardAction::CollapseAllGroups)
        } else if self.tree.expand_all.matches(key) {
            Action::Board(BoardAction::ExpandAllGroups)
        } else if self.tree.open_assignee.matches(key) {
            Action::ToggleAssigneeDropdown
        } else if self.tree.assign_to_me.matches(key) {
            Action::AssignSelectedToMe
        } else if self.tree.unassign.matches(key) {
            Action::UnassignSelected
        } else if board.toggle_move_mode.matches(key) {
            Action::ToggleBoardTicketMoveMode
        } else if matches_any(board.move_ticket_left.as_slice(), key) {
            Action::MoveBoardTicket(BoardTicketDirection::Left)
        } else if matches_any(board.move_ticket_right.as_slice(), key) {
            Action::MoveBoardTicket(BoardTicketDirection::Right)
        } else if matches_any(board.move_ticket_up.as_slice(), key) {
            Action::MoveBoardTicket(BoardTicketDirection::Up)
        } else if matches_any(board.move_ticket_down.as_slice(), key) {
            Action::MoveBoardTicket(BoardTicketDirection::Down)
        } else if matches_any(board.move_left.as_slice(), key) {
            Action::Board(BoardAction::MoveLeft)
        } else if matches_any(board.move_right.as_slice(), key) {
            Action::Board(BoardAction::MoveRight)
        } else if matches_any(resolve(&board.move_up, nav.up.as_slice()), key) {
            Action::Board(BoardAction::MoveUp)
        } else if matches_any(resolve(&board.move_down, nav.down.as_slice()), key) {
            Action::Board(BoardAction::MoveDown)
        } else if matches_any(resolve(&board.page_up, nav.half_page_up.as_slice()), key)
            || matches_any(nav.page_up.as_slice(), key) {
            Action::Board(BoardAction::HalfPageUp)
        } else if matches_any(resolve(&board.page_down, nav.half_page_down.as_slice()), key)
            || matches_any(nav.page_down.as_slice(), key) {
            Action::Board(BoardAction::HalfPageDown)
        } else if self.board_group.matches(key) {
            Action::ToggleBoardGrouping
        } else if matches_any(nav.goto_start_prefix.as_slice(), key) {
            Action::Board(BoardAction::GoToStartPrefix)
        } else if matches_any(resolve(&board.first, nav.home.as_slice()), key) {
            Action::Board(BoardAction::GoToStart)
        } else if matches_any(resolve(&board.last, nav.end.as_slice()), key) || matches_any(
            nav.goto_end.as_slice(),
            key,
        ) {
            Action::Board(BoardAction::GoToEnd)
        } else {
            Action::NoOp
        }
    }

    fn horizontal_scroll_direction(&self, key: KeyEvent) -> (r: Option<i32>)
        ensures
            r == horizontal_scroll(*self, key),
    {
        if matches_any(self.nav.scroll_left.as_slice(), key) {
            Some(-1)
        } else if matches_any(self.nav.scroll_right.as_slice(), key) {
            Some(1)
        } else {
            None
        }
    }

    /// The action a key press selects on the timeline: tab switching,
    /// sideways scrolling, the ticket dialog, the filter, and otherwise the
    /// tree keys of the issue list.
    pub fn timeline_action_for(&self, key: KeyEvent) -> (r: Action)
        ensures
            r == timeline_action(*self, key),
    {
        if self.tabs.previous.matches(key) {
            Action::Tabs(TabAction::Previous)
        } else if self.tabs.next.matches(key) {
            Action::Tabs(TabAction::Next)
        } else if let Some(dir) = self.horizontal_scroll_direction(key) {
            if dir < 0 {
                Action::Timeline(TimelineAction::ScrollLeft)
            } else {
                Action::Timeline(TimelineAction::ScrollRight)
            }
        } else if self.open_ticket.matches(key) {
            Action::OpenTicketDialog
        } else if self.tree.focus_filter.matches(key) {
            Action::Timeline(TimelineAction::FocusFilter)
        } else if self.close_matches(key) {
            Action::Timeline(TimelineAction::ClearFilter)
        } else if let Some(FilteredTreeAction::Tree(tree_action)) = self.filtered_tree_action_for(
            key,
        ) {
            Action::Timeline(TimelineAction::Tree(tree_action))
        } else {
            Action::NoOp
        }
    }

    /// The action a key press selects in the issue list.
    pub fn jira_filtered_tree_action_for(&self, key: KeyEvent) -> (r: Action)
        ensures
            r == jira_filtered_tree_action(*self, key),
    {
        if self.tabs.previous.matches(key) {
            Action::Tabs(TabAction::Previous)
        } else if self.tabs.next.matches(key) {
            Action::Tabs(TabAction::Next)
        } else if let Some(dir) = self.horizontal_scroll_direction(key) {
            Action::ScrollListHorizontal(dir * LIST_H_SCROLL_STEP)
        } else if self.tree.open_columns.matches(key) {
            Action::JiraFilteredTree(JiraFilteredTreeAction::OpenColumns)
        } else if self.tree.open_assignee.matches(key) {
            Action::ToggleAssigneeDropdown
        } else if self.tree.assign_to_me.matches(key) {
            Action::AssignSelectedToMe
        } else if self.tree.unassign.matches(key) {
            Action::UnassignSelected
        } else if self.tree.yank_issue_url.matches(key) {
            Action::JiraFilteredTree(JiraFilteredTreeAction::YankIssueUrlPrefix)
        } else if self.open_ticket.matches(key) {
            Action::OpenTicketDialog
        } else if let Some(action) = self.filtered_tree_action_for(key) {
            Action::JiraFilteredTree(JiraFilteredTreeAction::FilteredTree(action))
        } else {
            Action::NoOp
        }
    }

    /// The tree action a key press selects in a filtered tree, if any.
    pub fn filtered_tree_action_for(&self, key: KeyEvent) -> (r: Option<FilteredTreeAction>)
        ensures
            r == filtered_tree_action(*self, key),
    {
        let nav = &self.nav;
        let tree = &self.tree;
        if matches_any(resolve(&tree.move_up, nav.up.as_slice()), key) {
            Some(FilteredTreeAction::Tree(TreeAction::MoveUp))
        } else if matches_any(resolve(&tree.move_down, nav.down.as_slice()), key) {
            Some(FilteredTreeAction::Tree(TreeAction::MoveDown))
        } else if matches_any(resolve(&tree.half_page_up, nav.half_page_up.as_slice()), key)
            || matches_any(nav.page_up.as_slice(), key) {
            Some(FilteredTreeAction::Tree(TreeAction::HalfPageUp))
        } else if matches_any(resolve(&tree.half_page_down, nav.half_page_down.as_slice()), key)
            || matches_any(nav.page_down.as_slice(), key) {
            Some(FilteredTreeAction::Tree(TreeAction::HalfPageDown))
        } else if tree.collapse.matches(key) {
            Some(FilteredTreeAction::Tree(TreeAction::Collapse))
        } else if tree.expand.matches(key) {
            Some(FilteredTreeAction::Tree(TreeAction::Expand))
        } else if tree.toggle_expand.matches(key) {
            Some(FilteredTreeAction::Tree(TreeAction::ToggleExpanded))
        } else if tree.collapse_all.matches(key) || matches_any(
            tree.collapse_all_aliases.as_slice(),
            key,
        ) {
            Some(FilteredTreeAction::Tree(TreeAction::CollapseAll))
        } else if tree.expand_all.matches(key) {
            Some(FilteredTreeAction::Tree(TreeAction::ExpandAll))
        } else if matches_any(resolve(&tree.go_to_end, nav.goto_end.as_slice()), key)
            || matches_any(nav.end.as_slice(), key) {
            Some(FilteredTreeAction::Tree(TreeAction::GoToEnd))
        } else if matches_any(nav.home.as_slice(), key) {
            Some(FilteredTreeAction::Tree(TreeAction::GoToStart))
        } else if matches_any(resolve(&tree.go_to_start_prefix, nav.goto_start_prefix.as_slice()), key) {
            Some(FilteredTreeAction::Tree(TreeAction::GotoPrefix))
        } else if tree.focus_filter.matches(key) {
            Some(FilteredTreeAction::FocusFilter)
        } else if self.close_matches(key) {
            Some(FilteredTreeAction::ClearFilter)
        } else {
            None
        }
    }

    /// The action a key press selects in the command log.
    pub fn command_log_action_for(&self, key: KeyEvent) -> (r: Action)
        ensures
            r == command_log_action(*self, key),
    {
        let nav = &self.nav;
        let log = &self.command_log;
        if self.context_close_matches(log.close, key) {
            return Action::CloseCommandLog;
        }
        if is_ctrl_q(key) {
            return Action::Quit;
        }
        if matches_any(resolve(&log.move_up, nav.up.as_slice()), key) || matches_any(
            nav.arrow_up.as_slice(),
            key,
        ) {
            Action::ScrollCommandLog(-1)
        } else if matches_any(resolve(&log.move_down, nav.down.as_slice()), key) || matches_any(
            nav.arrow_down.as_slice(),
            key,
        ) {
            Action::ScrollCommandLog(1)
        } else if matches_any(resolve(&log.half_page_up, nav.half_page_up.as_slice()), key) {
            Action::HalfPageCommandLog(-1)
        } else if matches_any(resolve(&log.half_page_down, nav.half_page_down.as_slice()), key) {
            Action::HalfPageCommandLog(1)
        } else if matches_any(nav.page_up.as_slice(), key) {
            Action::PageCommandLog(-1)
        } else if matches_any(nav.page_down.as_slice(), key) {
            Action::PageCommandLog(1)
        } else if matches_any(resolve(&log.first, nav.goto_start_prefix.as_slice()), key) {
            Action::CommandLogToStartPrefix
        } else if matches_any(nav.home.as_slice(), key) {
            Action::CommandLogToStart
        } else if matches_any(resolve(&log.last, nav.goto_end.as_slice()), key) || matches_any(
            nav.end.as_slice(),
            key,
        ) {
            Action::CommandLogToEnd
        } else {
            Action::NoOp
        }
    }

    /// The action a key press selects in the sprint details dialog.
    pub fn sprint_details_action_for(&self, key: KeyEvent) -> (r: Action)
        ensures
            r == (if close_matches_spec(*self, key) || spec_matches(self.board_details, key) {
                Action::CloseSprintDetails
            } else if spec_is_ctrl_q(key) {
                Action::Quit
            } else {
                Action::NoOp
            }),
    {
        if self.close_matches(key) || self.board_details.matches(key) {
            Action::CloseSprintDetails
        } else if is_ctrl_q(key) {
            Action::Quit
        } else {
            Action::NoOp
        }
    }

    /// The action a key press selects in the ticket dialog.
    pub fn ticket_dialog_action_for(&self, key: KeyEvent) -> (r: Action)
        ensures
            r == (if context_close_spec(*self, self.close_ticket, key) {
                Action::CloseTicketDialog
            } else if spec_is_ctrl_q(key) {
                Action::Quit
            } else if spec_matches(self.tabs.previous, key) {
                Action::TicketDialog(TicketDialogAction::PreviousTab)
            } else if spec_matches(self.tabs.next, key) {
                Action::TicketDialog(TicketDialogAction::NextTab)
            } else {
                Action::NoOp
            }),
    {
        if self.context_close_matches(self.close_ticket, key) {
            Action::CloseTicketDialog
        } else if is_ctrl_q(key) {
            Action::Quit
        } else if self.tabs.previous.matches(key) {
            Action::TicketDialog(TicketDialogAction::PreviousTab)
        } else if self.tabs.next.matches(key) {
            Action::TicketDialog(TicketDialogAction::NextTab)
        } else {
            Action::NoOp
        }
    }

    /// The action a key press selects in the help dialog.
    pub fn help_dialog_action_for(&self, key: KeyEvent) -> (r: HelpDialogAction)
        ensures
            r == help_dialog_action(*self, key),
    {
        let nav = &self.nav;
        let help = &self.help;
        if self.open_help.matches(key) || self.context_close_matches(help.close, key) {
            HelpDialogAction::Close
        } else if matches_any(resolve(&help.move_up, nav.up.as_slice()), key) || matches_any(
            nav.arrow_up.as_slice(),
            key,
        ) {
            HelpDialogAction::Up
        } else if matches_any(resolve(&help.move_down, nav.down.as_slice()), key) || matches_any(
            nav.arrow_down.as_slice(),
            key,
        ) {
            HelpDialogAction::Down
        } else if matches_any(resolve(&help.page_up, nav.half_page_up.as_slice()), key)
            || matches_any(nav.page_up.as_slice(), key) {
            HelpDialogAction::PageUp
        } else if matches_any(resolve(&help.page_down, nav.half_page_down.as_slice()), key)
            || matches_any(nav.page_down.as_slice(), key) {
            HelpDialogAction::PageDown
        } else if matches_any(resolve(&help.first, nav.goto_start_prefix.as_slice()), key)
            || matches_any(nav.home.as_slice(), key) {
            HelpDialogAction::First
        } else if matches_any(resolve(&help.last, nav.goto_end.as_slice()), key) || matches_any(
            nav.end.as_slice(),
            key,
        ) {
            HelpDialogAction::Last
        } else {
            HelpDialogAction::NoOp
        }
    }

    /// Inside the open column picker, the columns key closes it again.
    pub fn column_dropdown_context_action_for(&self, key: KeyEvent) -> (r: Option<
        JiraFilteredTreeAction,
    >)
        ensures
            r == (if spec_matches(self.tree.open_columns, key) {
                Some(JiraFilteredTreeAction::OpenColumns)
            } else {
                None
            }),
    {
        if self.tree.open_columns.matches(key) {
            Some(JiraFilteredTreeAction::OpenColumns)
        } else {
            None
        }
    }

    /// The dropdown action a key press selects in a picker.
    pub fn project_dropdown_action_for(&self, key: KeyEvent) -> (r: DropdownAction)
        ensures
            r == dropdown_key_action(*self, key),
    {
        match self.dropdown_action_for(key) {
            JiraFilteredTreeAction::Dropdown(action) => action,
            _ => DropdownAction::NoOp,
        }
    }

    /// The dropdown action a key press selects in the theme picker.
    pub fn theme_dropdown_action_for(&self, key: KeyEvent) -> (r: DropdownAction)
        ensures
            r == dropdown_key_action(*self, key),
    {
        self.project_dropdown_action_for(key)
    }

    /// The dropdown action a key press selects in the column picker.
    pub fn dropdown_action_for(&self, key: KeyEvent) -> (r: JiraFilteredTreeAction)
        ensures
            r == JiraFilteredTreeAction::Dropdown(dropdown_key_action(*self, key)),
    {
        let nav = &self.nav;
        let dd = &self.dropdown;
        let action = if self.dropdown_close_matches(key) {
            DropdownAction::Close
        } else if dd.focus_filter.matches(key) {
            DropdownAction::FocusFilter
        } else if matches_any(resolve(&dd.half_page_up, nav.half_page_up.as_slice()), key)
            || matches_any(nav.page_up.as_slice(), key) {
            DropdownAction::HalfPageUp
        } else if matches_any(resolve(&dd.half_page_down, nav.half_page_down.as_slice()), key)
            || matches_any(nav.page_down.as_slice(), key) {
            DropdownAction::HalfPageDown
        } else if matches_any(resolve(&dd.last, nav.goto_end.as_slice()), key) || matches_any(
            nav.end.as_slice(),
            key,
        ) {
            DropdownAction::GoToEnd
        } else if matches_any(nav.home.as_slice(), key) {
            DropdownAction::GoToStart
        } else if matches_any(resolve(&dd.first, nav.goto_start_prefix.as_slice()), key) {
            DropdownAction::GotoPrefix
        } else if dd.submit.matches(key) || dd.toggle_selected.matches(key) {
            DropdownAction::ToggleSelected
        } else if matches_any(resolve(&dd.move_up, nav.up.as_slice()), key) || matches_any(
            nav.arrow_up.as_slice(),
            key,
        ) {
            DropdownAction::MoveUp
        } else if matches_any(resolve(&dd.move_down, nav.down.as_slice()), key) || matches_any(
            nav.arrow_down.as_slice(),
            key,
        ) {
            DropdownAction::MoveDown
        } else {
            DropdownAction::NoOp
        };
        JiraFilteredTreeAction::Dropdown(action)
    }

    /// The dropdown action a key press selects while a dropdown's search input
    /// is focused.
    pub fn dropdown_filter_focused_action_for(&self, key: KeyEvent) -> (r: DropdownAction)
        ensures
            r == dropdown_filter_key_action(*self, key),
    {
        let nav = &self.nav;
        let dd = &self.dropdown;
        if dd.toggle_from_filter.matches(key) || dd.submit_from_filter.matches(key) {
            DropdownAction::ToggleSelected
        } else if dd.submit.matches(key) {
            DropdownAction::Filter(FilterAction::Submit)
        } else if dd.filter_move_up.matches(key) {
            DropdownAction::Filter(FilterAction::MoveSelectionUp)
        } else if dd.filter_move_down.matches(key) {
            DropdownAction::Filter(FilterAction::MoveSelectionDown)
        } else if dd.filter_clear.matches(key) {
            DropdownAction::Filter(FilterAction::Clear)
        } else if matches_any(resolve(&dd.half_page_up, nav.half_page_up.as_slice()), key)
            || matches_any(nav.page_up.as_slice(), key) {
            DropdownAction::HalfPageUp
        } else if matches_any(resolve(&dd.half_page_down, nav.half_page_down.as_slice()), key)
            || matches_any(nav.page_down.as_slice(), key) {
            DropdownAction::HalfPageDown
        } else if matches_any(resolve(&dd.last, nav.goto_end.as_slice()), key) || matches_any(
            nav.end.as_slice(),
            key,
        ) {
            DropdownAction::GoToEnd
        } else if matches_any(nav.home.as_slice(), key) {
            DropdownAction::GoToStart
        } else if matches_any(resolve(&dd.first, nav.goto_start_prefix.as_slice()), key) {
            DropdownAction::GotoPrefix
        } else if self.dropdown_close_matches(key) {
            DropdownAction::Close
        } else {
            DropdownAction::Filter(self.filter_action_for(key))
        }
    }

    /// The action a key press selects in a focused search input.
    pub fn filter_action_for(&self, key: KeyEvent) -> (r: FilterAction)
        ensures
            r == filter_key_action(*self, key),
    {
        let m = key.modifiers;
        if m.control {
            match key.code {
                KeyCode::Char('a') => return FilterAction::MoveCursorStart,
                KeyCode::Char('e') => return FilterAction::MoveCursorEnd,
                KeyCode::Char('c') => return FilterAction::Clear,
                KeyCode::Left => return FilterAction::MoveCursorWordLeft,
                KeyCode::Right => return FilterAction::MoveCursorWordRight,
                KeyCode::Char('w') => return FilterAction::DeleteWordLeft,
                KeyCode::Delete => return FilterAction::DeleteWordRight,
                KeyCode::Char('f') => return FilterAction::MoveCursorRight,
                KeyCode::Char('b') => return FilterAction::MoveCursorLeft,
                KeyCode::Char('k') => return FilterAction::MoveSelectionUp,
                KeyCode::Char('j') => return FilterAction::MoveSelectionDown,
                KeyCode::Char('u') => return FilterAction::DeleteToStart,
                _ => {},
            }
        }
        if m.alt {
            match key.code {
                KeyCode::Char('d') => return FilterAction::DeleteWordRight,
                KeyCode::Char('f') => return FilterAction::MoveCursorWordRight,
                KeyCode::Char('b') => return FilterAction::MoveCursorWordLeft,
                _ => {},
            }
        }
        if m.is_empty() || m == KeyModifiers::shift_only() {
            if let KeyCode::Char(c) = key.code {
                return FilterAction::Text(c);
            }
        }
        if is_ctrl_q(key) {
            FilterAction::Quit
        } else if self.close_matches(key) || (key.code == KeyCode::Enter && !m.control) || (key.code
            == KeyCode::Char('/') && m.control) {
            FilterAction::Exit
        } else if key.code == KeyCode::Backspace {
            FilterAction::Backspace
        } else if m.is_empty() {
            match key.code {
                KeyCode::Left => FilterAction::MoveCursorLeft,
                KeyCode::Right => FilterAction::MoveCursorRight,
                KeyCode::Delete => FilterAction::Delete,
                _ => FilterAction::NoOp,
            }
        } else {
            FilterAction::NoOp
        }
    }

    /// The action a key press selects on the setup form.
    pub fn setup_action_for(&self, key: KeyEvent) -> (r: SetupAction)
        ensures
            r == setup_key_action(*self, key),
    {
        if self.setup_quit.matches(key) {
            return SetupAction::Quit;
        }
        let m = key.modifiers;
        if m.control {
            match key.code {
                KeyCode::Char('a') => return SetupAction::MoveCursorStart,
                KeyCode::Char('e') => return SetupAction::MoveCursorEnd,
                KeyCode::Char('c') => return SetupAction::Clear,
                KeyCode::Left => return SetupAction::MoveCursorWordLeft,
                KeyCode::Right => return SetupAction::MoveCursorWordRight,
                KeyCode::Char('w') => return SetupAction::DeleteWordLeft,
                KeyCode::Delete => return SetupAction::DeleteWordRight,
                KeyCode::Char('f') => return SetupAction::MoveCursorRight,
                KeyCode::Char('b') => return SetupAction::MoveCursorLeft,
                KeyCode::Char('k') => return SetupAction::DeleteToEnd,
                KeyCode::Char('u') => return SetupAction::DeleteToStart,
                _ => {},
            }
        }
        if m.alt {
            match key.code {
                KeyCode::Char('d') => return SetupAction::DeleteWordRight,
                KeyCode::Char('f') => return SetupAction::MoveCursorWordRight,
                KeyCode::Char('b') => return SetupAction::MoveCursorWordLeft,
                _ => {},
            }
        }
        if m.is_empty() || m == KeyModifiers::shift_only() {
            if let KeyCode::Char(c) = key.code {
                return SetupAction::Text(c);
            }
        }
        if self.setup_next_field.matches(key) {
            SetupAction::NextField
        } else if self.setup_previous_field.matches(key) {
            SetupAction::PreviousField
        } else if self.setup_submit.matches(key) {
            SetupAction::Submit
        } else if self.setup_backspace.matches(key) {
            SetupAction::Backspace
        } else if self.setup_quit.matches(key) {
            SetupAction::Quit
        } else if m.is_empty() {
            match key.code {
                KeyCode::Left => SetupAction::MoveCursorLeft,
                KeyCode::Right => SetupAction::MoveCursorRight,
                KeyCode::Delete => SetupAction::Delete,
                _ => SetupAction::NoOp,
            }
        } else {
            SetupAction::NoOp
        }
    }
}


/// A view's own non-empty list of keys takes the place of the shared keys
/// entirely; the shared keys serve only when the view has no list or an
/// empty one.
pub proof fn lemma_override_replaces_shared(ovr: Option<Vec<KeySpec>>, shared: Seq<KeySpec>)
    ensures
        ovr is Some && ovr->0@.len() > 0 ==> resolved(ovr, shared) == ovr->0@,
        !(ovr is Some && ovr->0@.len() > 0) ==> resolved(ovr, shared) == shared,
{
}

/// On the board, when the board has its own non-empty list of move-up keys,
/// each of them does something (moving up unless an earlier binding claims
/// it), and only they move the selection up: a shared `nav.up` key that is
/// not in the list does not.
pub proof fn lemma_board_move_up_override(b: KeyBindings, key: KeyEvent)
    requires
        b.board.move_up is Some,
        b.board.move_up->0@.len() > 0,
    ensures
        spec_matches_any(b.board.move_up->0@, key) ==> board_action(b, key) != Action::NoOp,
        board_action(b, key) == Action::Board(BoardAction::MoveUp) ==> spec_matches_any(b.board.move_up->0@, key),
{
}

/// Without a board list of move-up keys, the shared `nav.up` keys move the
/// board selection up, and only they do.
pub proof fn lemma_board_move_up_shared(b: KeyBindings, key: KeyEvent)
    requires
        !(b.board.move_up is Some && b.board.move_up->0@.len() > 0),
    ensures
        spec_matches_any(b.nav.up@, key) ==> board_action(b, key) != Action::NoOp,
        board_action(b, key) == Action::Board(BoardAction::MoveUp) ==> spec_matches_any(b.nav.up@, key),
{
}

} // verus!
