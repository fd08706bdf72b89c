//! Where a key press goes: from the application's focus state and the key
//! bindings to the action, dialog key or text edit it becomes.
use vstd::prelude::*;
use crate::actions::Action;
use crate::app_tab::{ApplicationTab, Screen};
use crate::board::BoardAction;
use crate::dropdown::DropdownAction;
use crate::filter::FilterAction;
use crate::filtered_tree::FilteredTreeAction;
use crate::help::HelpDialogAction;
use crate::issue_columns::JiraFilteredTreeAction;
use crate::keymap::{
    KeyBindings, board_action, filter_key_action, global_action, jira_filtered_tree_action,
    leader_action, command_log_action, help_dialog_action, close_matches_spec, setup_key_action,
};
use crate::keys::{KeyCode, KeyEvent, spec_is_ctrl_q, spec_matches};
use crate::setup::SetupAction;
use crate::tree::TreeAction;

verus! {

/// The dropdowns the application can open.
#[derive(Debug, Clone, Copy, PartialEq, Eq, Structural)]
pub enum DropdownKind {
    JiraColumns,
    QuickSwitcher,
    ProjectSwitcher,
    ThemePicker,
    AssigneePicker,
    BoardGroup,
}

/// Whether keys are read as commands or as text.
#[derive(Debug, Clone, Copy, PartialEq, Eq, Structural)]
pub enum InputMode {
    Normal,
    Input,
}

/// What the application's focus state is when a key arrives.
#[derive(Debug, Clone, Copy, PartialEq, Eq, Structural)]
pub struct KeyContext {
    pub screen: Screen,
    pub active_tab: ApplicationTab,
    /// The leader key was pressed and waits for its second key.
    pub leader_pending: bool,
    pub help_open: bool,
    pub command_log_open: bool,
    pub sprint_details_open: bool,
    /// The single-select overlay that is open, if any (never the column
    /// picker, which belongs to the issue list).
    pub overlay: Option<DropdownKind>,
    pub overlay_filter_focused: bool,
    pub column_dropdown_open: bool,
    pub column_dropdown_filter_focused: bool,
    pub list_filter_focused: bool,
    pub board_filter_focused: bool,
    pub timeline_filter_focused: bool,
}

/// What a key press becomes.
#[derive(Debug, Clone, Copy, PartialEq, Eq, Structural)]
pub enum KeyOutcome {
    /// The key after the leader: the pending leader is dropped and the action,
    /// if any, dispatched.
    AfterLeader(Option<Action>),
    /// A key for the open help dialog.
    Help(HelpDialogAction),
    /// An application action to dispatch.
    Dispatch(Action),
    /// An edit of the setup form.
    Setup(SetupAction),
    /// An edit of the board's search input.
    BoardFilter(FilterAction),
    /// An edit of the issue list's search input.
    ListFilter(FilterAction),
    /// The key does nothing here.
    Ignored,
}

/// Keys are text while the setup form or any search input has focus.
pub open spec fn input_mode_spec(c: KeyContext) -> InputMode {
    if c.screen == Screen::Setup || c.list_filter_focused || c.column_dropdown_filter_focused || (
    c.overlay is Some && c.overlay_filter_focused) || c.board_filter_focused
        || c.timeline_filter_focused {
        InputMode::Input
    } else {
        InputMode::Normal
    }
}

/// Whether the focus captures keys, so that a bare quit binding does not
/// quit: the setup form, an open overlay other than the board grouping, the
/// open column picker, or a focused search input.
pub open spec fn captures_keys(c: KeyContext) -> bool {
    match c.screen {
        Screen::Setup => true,
        Screen::Main => (c.overlay is Some && c.overlay != Some(DropdownKind::BoardGroup))
            || c.column_dropdown_open || c.list_filter_focused || c.board_filter_focused
            || c.timeline_filter_focused,
    }
}

pub fn input_mode(c: &KeyContext) -> (r: InputMode)
    ensures
        r == input_mode_spec(*c),
{
    if c.screen == Screen::Setup || c.list_filter_focused || c.column_dropdown_filter_focused || (
    c.overlay.is_some() && c.overlay_filter_focused) || c.board_filter_focused
        || c.timeline_filter_focused {
        InputMode::Input
    } else {
        InputMode::Normal
    }
}

pub fn overlay_captures_keys(c: &KeyContext) -> (r: bool)
    ensures
        r == captures_keys(*c),
{
    match c.screen {
        Screen::Setup => true,
        Screen::Main => (c.overlay.is_some() && c.overlay != Some(DropdownKind::BoardGroup))
            || c.column_dropdown_open || c.list_filter_focused || c.board_filter_focused
            || c.timeline_filter_focused,
    }
}

/// Whether a globally bound key acts now rather than yielding to the focus:
/// not when the board's grouping key claims it, not when a focused text input
/// takes a printable or Ctrl+J/K key (help excepted), and not when captured
/// keys would make a bare quit binding quit.
pub open spec fn dispatches_global(
    c: KeyContext,
    b: KeyBindings,
    key: KeyEvent,
    action: Action,
) -> bool {
    let text_focus = input_mode_spec(c) == InputMode::Input;
    let navigation = (key.code == KeyCode::Char('j') || key.code == KeyCode::Char('k'))
        && key.modifiers.control;
    let printable = key.code is Char && !key.modifiers.control && !key.modifiers.alt;
    let grouping_override = c.screen == Screen::Main && c.active_tab == ApplicationTab::Board
        && !c.board_filter_focused && board_action(b, key) == Action::ToggleBoardGrouping;
    !grouping_override && !((text_focus && (printable || navigation) && action != Action::OpenHelp)
        || (captures_keys(c) && action == Action::Quit && !spec_is_ctrl_q(key)))
}

/// On the board, the reload key reloads the board.
pub open spec fn contextual_action(c: KeyContext, action: Action) -> Action {
    if action == Action::ReloadList && c.active_tab == ApplicationTab::Board {
        Action::ReloadBoard
    } else {
        action
    }
}

/// The dropdown action of a key in an open dropdown: with the search input
/// focused, Ctrl+Space and Ctrl+Enter toggle, Enter submits, the paging and
/// edge keys move, Esc or Ctrl+[ closes and other keys edit the search; with
/// it unfocused, Esc or Ctrl+[ closes and the dropdown bindings apply.
pub open spec fn dropdown_routed(b: KeyBindings, key: KeyEvent, filter_focused: bool) -> DropdownAction {
    let ctrl = key.modifiers.control;
    let close = key.code == KeyCode::Esc || (key.code == KeyCode::Char('[') && ctrl);
    if filter_focused {
        if (key.code == KeyCode::Char(' ') && ctrl) || (key.code == KeyCode::Enter && ctrl) {
            DropdownAction::ToggleSelected
        } else if key.code == KeyCode::Enter {
            DropdownAction::Filter(FilterAction::Submit)
        } else if key.code == KeyCode::PageUp {
            DropdownAction::HalfPageUp
        } else if key.code == KeyCode::PageDown {
            DropdownAction::HalfPageDown
        } else if key.code == KeyCode::Home {
            DropdownAction::GoToStart
        } else if key.code == KeyCode::End {
            DropdownAction::GoToEnd
        } else if close {
            DropdownAction::Close
        } else {
            DropdownAction::Filter(filter_key_action(b, key))
        }
    } else if close {
        DropdownAction::Close
    } else {
        crate::keymap::dropdown_key_action(b, key)
    }
}

/// The action of a key in the open column picker.
pub open spec fn column_dropdown_routed(c: KeyContext, b: KeyBindings, key: KeyEvent) -> JiraFilteredTreeAction {
    if c.column_dropdown_filter_focused {
        JiraFilteredTreeAction::Dropdown(dropdown_routed(b, key, true))
    } else if spec_matches(b.tree.open_columns, key) {
        JiraFilteredTreeAction::OpenColumns
    } else {
        JiraFilteredTreeAction::Dropdown(crate::keymap::dropdown_key_action(b, key))
    }
}

/// Whether an action may run outside the issue list: tab, board and tree
/// actions and the board's own commands.
pub open spec fn allowed_off_list(action: Action) -> bool {
    match action {
        Action::Tabs(_) | Action::Board(_) | Action::JiraFilteredTree(_) | Action::FocusBoardFilter
        | Action::ClearBoardFilter | Action::ToggleBoardGrouping | Action::ToggleSprintDetails
        | Action::ToggleAssigneeDropdown | Action::AssignSelectedToMe
        | Action::UnassignSelected => true,
        _ => false,
    }
}

pub open spec fn list_tree_action(t: TreeAction) -> Action {
    Action::JiraFilteredTree(JiraFilteredTreeAction::FilteredTree(FilteredTreeAction::Tree(t)))
}

/// What a key press becomes, in this order: the key after the leader; a key
/// of the open help dialog; a global key that may act now; a key of the open
/// overlay; then by screen and focus the setup form, the command log, the
/// sprint details, the column picker, the board's search, the list's search
/// (where Ctrl+K/J move the selection), and otherwise the board's or the
/// list's bindings, outside the list only for the actions allowed there.
pub open spec fn route_key_spec(c: KeyContext, b: KeyBindings, key: KeyEvent) -> KeyOutcome {
    if c.leader_pending {
        if global_action(b, key) == Some(Action::Quit) {
            KeyOutcome::AfterLeader(Some(Action::Quit))
        } else if leader_action(b, key) != Action::NoOp {
            KeyOutcome::AfterLeader(Some(leader_action(b, key)))
        } else {
            KeyOutcome::AfterLeader(None)
        }
    } else if c.help_open {
        KeyOutcome::Help(help_dialog_action(b, key))
    } else if global_action(b, key) is Some && dispatches_global(
        c,
        b,
        key,
        global_action(b, key)->0,
    ) {
        KeyOutcome::Dispatch(contextual_action(c, global_action(b, key)->0))
    } else if c.overlay == Some(DropdownKind::QuickSwitcher) {
        KeyOutcome::Dispatch(Action::QuickSwitcher(dropdown_routed(b, key, c.overlay_filter_focused)))
    } else if c.overlay == Some(DropdownKind::AssigneePicker) {
        KeyOutcome::Dispatch(
            Action::AssigneeDropdown(dropdown_routed(b, key, c.overlay_filter_focused)),
        )
    } else if c.overlay == Some(DropdownKind::BoardGroup) {
        KeyOutcome::Dispatch(
            Action::BoardGroupDropdown(dropdown_routed(b, key, c.overlay_filter_focused)),
        )
    } else if c.overlay == Some(DropdownKind::ThemePicker) {
        KeyOutcome::Dispatch(Action::ThemeDropdown(dropdown_routed(b, key, c.overlay_filter_focused)))
    } else if c.overlay == Some(DropdownKind::ProjectSwitcher) {
        KeyOutcome::Dispatch(
            Action::ProjectDropdown(dropdown_routed(b, key, c.overlay_filter_focused)),
        )
    } else if c.screen == Screen::Setup {
        KeyOutcome::Setup(setup_key_action(b, key))
    } else if c.command_log_open {
        KeyOutcome::Dispatch(command_log_action(b, key))
    } else if c.sprint_details_open {
        KeyOutcome::Dispatch(
            if close_matches_spec(b, key) || spec_matches(b.board_details, key) {
                Action::CloseSprintDetails
            } else if spec_is_ctrl_q(key) {
                Action::Quit
            } else {
                Action::NoOp
            },
        )
    } else if c.column_dropdown_open {
        KeyOutcome::Dispatch(Action::JiraFilteredTree(column_dropdown_routed(c, b, key)))
    } else if c.active_tab == ApplicationTab::Board && c.board_filter_focused {
        KeyOutcome::BoardFilter(filter_key_action(b, key))
    } else if c.list_filter_focused {
        let fa = filter_key_action(b, key);
        if fa == FilterAction::MoveSelectionUp {
            KeyOutcome::Dispatch(list_tree_action(TreeAction::MoveUp))
        } else if fa == FilterAction::MoveSelectionDown {
            KeyOutcome::Dispatch(list_tree_action(TreeAction::MoveDown))
        } else {
            KeyOutcome::ListFilter(fa)
        }
    } else {
        let action = if c.active_tab == ApplicationTab::Board {
            board_action(b, key)
        } else {
            jira_filtered_tree_action(b, key)
        };
        if c.active_tab != ApplicationTab::List && !allowed_off_list(action) {
            KeyOutcome::Ignored
        } else {
            KeyOutcome::Dispatch(action)
        }
    }
}

/// Whether a globally bound key acts now rather than yielding to the focus.
pub fn should_dispatch_global(c: &KeyContext, b: &KeyBindings, key: KeyEvent, action: Action) -> (r: bool)
    ensures
        r == dispatches_global(*c, *b, key, action),
{
    let text_focus = input_mode(c) == InputMode::Input;
    let navigation = (key.code == KeyCode::Char('j') || key.code == KeyCode::Char('k'))
        && key.modifiers.control;
    let printable = matches!(key.code, KeyCode::Char(_)) && !key.modifiers.control
        && !key.modifiers.alt;
    let forced_quit = b.is_forced_quit(key);
    let reserved = action == Action::OpenHelp;
    let grouping_override = c.screen == Screen::Main && c.active_tab == ApplicationTab::Board
        && !c.board_filter_focused && b.board_action_for(key) == Action::ToggleBoardGrouping;
    let typing = overlay_captures_keys(c);
    !grouping_override && !(text_focus && (printable || navigation) && !reserved || typing
        && action == Action::Quit && !forced_quit)
}

/// On the board, the reload key reloads the board.
pub fn contextual_global_action(c: &KeyContext, action: Action) -> (r: Action)
    ensures
        r == contextual_action(*c, action),
{
    if action == Action::ReloadList && c.active_tab == ApplicationTab::Board {
        Action::ReloadBoard
    } else {
        action
    }
}

/// The dropdown action of a key in an open dropdown.
pub fn dropdown_key_action(b: &KeyBindings, key: KeyEvent, filter_focused: bool) -> (r: DropdownAction)
    ensures
        r == dropdown_routed(*b, key, filter_focused),
{
    let ctrl = key.modifiers.control;
    let close = key.code == KeyCode::Esc || (key.code == KeyCode::Char('[') && ctrl);
    if filter_focused {
        if (key.code == KeyCode::Char(' ') && ctrl) || (key.code == KeyCode::Enter && ctrl) {
            DropdownAction::ToggleSelected
        } else if key.code == KeyCode::Enter {
            DropdownAction::Filter(FilterAction::Submit)
        } else if key.code == KeyCode::PageUp {
            DropdownAction::HalfPageUp
        } else if key.code == KeyCode::PageDown {
            DropdownAction::HalfPageDown
        } else if key.code == KeyCode::Home {
            DropdownAction::GoToStart
        } else if key.code == KeyCode::End {
            DropdownAction::GoToEnd
        } else if close {
            DropdownAction::Close
        } else {
            DropdownAction::Filter(b.filter_action_for(key))
        }
    } else if close {
        DropdownAction::Close
    } else {
        b.project_dropdown_action_for(key)
    }
}

/// What a key press becomes.
pub fn route_key(c: &KeyContext, b: &KeyBindings, key: KeyEvent) -> (r: KeyOutcome)
    ensures
        r == route_key_spec(*c, *b, key),
{
    if c.leader_pending {
        if b.global_action_for(key) == Some(Action::Quit) {
            return KeyOutcome::AfterLeader(Some(Action::Quit));
        }
        let action = b.leader_action_for(key);
        return if action != Action::NoOp {
            KeyOutcome::AfterLeader(Some(action))
        } else {
            KeyOutcome::AfterLeader(None)
        };
    }
    if c.help_open {
        return KeyOutcome::Help(b.help_dialog_action_for(key));
    }
    if let Some(action) = b.global_action_for(key) {
        if should_dispatch_global(c, b, key, action) {
            return KeyOutcome::Dispatch(contextual_global_action(c, action));
        }
    }
    match c.overlay {
        Some(DropdownKind::QuickSwitcher) => {
            return KeyOutcome::Dispatch(
                Action::QuickSwitcher(dropdown_key_action(b, key, c.overlay_filter_focused)),
            );
        },
        Some(DropdownKind::AssigneePicker) => {
            return KeyOutcome::Dispatch(
                Action::AssigneeDropdown(dropdown_key_action(b, key, c.overlay_filter_focused)),
            );
        },
        Some(DropdownKind::BoardGroup) => {
            return KeyOutcome::Dispatch(
                Action::BoardGroupDropdown(dropdown_key_action(b, key, c.overlay_filter_focused)),
            );
        },
        Some(DropdownKind::ThemePicker) => {
            return KeyOutcome::Dispatch(
                Action::ThemeDropdown(dropdown_key_action(b, key, c.overlay_filter_focused)),
            );
        },
        Some(DropdownKind::ProjectSwitcher) => {
            return KeyOutcome::Dispatch(
                Action::ProjectDropdown(dropdown_key_action(b, key, c.overlay_filter_focused)),
            );
        },
        _ => {},
    }
    if c.screen == Screen::Setup {
        return KeyOutcome::Setup(b.setup_action_for(key));
    }
    if c.command_log_open {
        return KeyOutcome::Dispatch(b.command_log_action_for(key));
    }
    if c.sprint_details_open {
        return KeyOutcome::Dispatch(b.sprint_details_action_for(key));
    }
    if c.column_dropdown_open {
        let action = if c.column_dropdown_filter_focused {
            JiraFilteredTreeAction::Dropdown(dropdown_key_action(b, key, true))
        } else if let Some(action) = b.column_dropdown_context_action_for(key) {
            action
        } else {
            b.dropdown_action_for(key)
        };
        return KeyOutcome::Dispatch(Action::JiraFilteredTree(action));
    }
    if c.active_tab == ApplicationTab::Board && c.board_filter_focused {
        return KeyOutcome::BoardFilter(b.filter_action_for(key));
    }
    if c.list_filter_focused {
        let action = b.filter_action_for(key);
        return if action == FilterAction::MoveSelectionUp {
            KeyOutcome::Dispatch(
                Action::JiraFilteredTree(
                    JiraFilteredTreeAction::FilteredTree(FilteredTreeAction::Tree(TreeAction::MoveUp)),
                ),
            )
        } else if action == FilterAction::MoveSelectionDown {
            KeyOutcome::Dispatch(
                Action::JiraFilteredTree(
                    JiraFilteredTreeAction::FilteredTree(
                        FilteredTreeAction::Tree(TreeAction::MoveDown),
                    ),
                ),
            )
        } else {
            KeyOutcome::ListFilter(action)
        };
    }
    let action = if c.active_tab == ApplicationTab::Board {
        b.board_action_for(key)
    } else {
        b.jira_filtered_tree_action_for(key)
    };
    let allowed = match action {
        Action::Tabs(_) | Action::Board(_) | Action::JiraFilteredTree(_) | Action::FocusBoardFilter
        | Action::ClearBoardFilter | Action::ToggleBoardGrouping | Action::ToggleSprintDetails
        | Action::ToggleAssigneeDropdown | Action::AssignSelectedToMe
        | Action::UnassignSelected => true,
        _ => false,
    };
    if c.active_tab != ApplicationTab::List && !allowed {
        KeyOutcome::Ignored
    } else {
        KeyOutcome::Dispatch(action)
    }
}

/// With the default bindings, Ctrl+Q quits from every state but the open
/// help dialog, also as the key after the leader.
pub proof fn lemma_ctrl_q_quits(c: KeyContext, b: KeyBindings)
    requires
        crate::keymap::is_default(b),
        !c.help_open,
    ensures
        route_key_spec(
            c,
            b,
            KeyEvent { code: KeyCode::Char('q'), modifiers: crate::keys::only_control() },
        ) == if c.leader_pending {
            KeyOutcome::AfterLeader(Some(Action::Quit))
        } else {
            KeyOutcome::Dispatch(Action::Quit)
        },
{
    let key = KeyEvent { code: KeyCode::Char('q'), modifiers: crate::keys::only_control() };
    assert(spec_is_ctrl_q(key));
    assert(!spec_matches(b.open_help, key));
    assert(!spec_matches(b.leader, key));
    assert(!spec_matches(b.quick_switcher, key));
    assert(!spec_matches(b.reload_list, key));
    assert(global_action(b, key) == Some(Action::Quit));
    assert(!spec_matches(b.board_group, key));
    assert(board_action(b, key) != Action::ToggleBoardGrouping);
}

/// The help dialog's selection after moving by `delta` entries among
/// `item_count`: held within the entries, 0 when there are none.
pub fn move_help_selection(selected: usize, delta: isize, item_count: usize) -> (r: usize)
    ensures
        r == (if item_count == 0 {
            0
        } else {
            let moved = selected + delta;
            let sat = if moved < 0 {
                0
            } else if moved > usize::MAX {
                usize::MAX as int
            } else {
                moved
            };
            if sat < item_count - 1 {
                sat
            } else {
                item_count - 1
            }
        }),
{
    if item_count == 0 {
        return 0;
    }
    let sum = selected as i128 + delta as i128;
    let moved: usize = if sum < 0 {
        0
    } else if sum > usize::MAX as i128 {
        usize::MAX
    } else {
        sum as usize
    };
    if moved < item_count - 1 {
        moved
    } else {
        item_count - 1
    }
}

} // verus!
