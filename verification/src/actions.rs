//! The actions the application's key bindings and menus produce.
use vstd::prelude::*;
use crate::board::BoardAction;
use crate::dropdown::DropdownAction;
use crate::filter::FilterAction;
use crate::issue_columns::JiraFilteredTreeAction;
use crate::tabs::TabAction;
use crate::tree::TreeAction;

verus! {

#[derive(Debug, Clone, Copy, PartialEq, Eq, Structural)]
pub enum Action {
    Tabs(TabAction),
    JiraFilteredTree(JiraFilteredTreeAction),
    /// Pan the issue table horizontally by N cells (negative = left).
    ScrollListHorizontal(i32),
    ReloadList,
    ReloadBoard,
    ReloadTimeline,
    Board(BoardAction),
    MoveBoardTicket(BoardTicketDirection),
    ToggleBoardTicketMoveMode,
    PlaceBoardTicketMoveMode,
    Leader,
    FocusBoardFilter,
    ClearBoardFilter,
    ToggleBoardGrouping,
    ToggleCommandLog,
    CloseCommandLog,
    ScrollCommandLog(isize),
    PageCommandLog(isize),
    HalfPageCommandLog(isize),
    CommandLogToStart,
    CommandLogToStartPrefix,
    CommandLogToEnd,
    ToggleSprintDetails,
    CloseSprintDetails,
    ToggleProjectDropdown,
    ProjectDropdown(DropdownAction),
    ToggleQuickSwitcher,
    QuickSwitcher(DropdownAction),
    ToggleThemeDropdown,
    ThemeDropdown(DropdownAction),
    ToggleAssigneeDropdown,
    AssigneeDropdown(DropdownAction),
    BoardGroupDropdown(DropdownAction),
    AssignSelectedToMe,
    UnassignSelected,
    GoToBoard,
    GoToList,
    GoToTimeline,
    Timeline(TimelineAction),
    OpenTicketDialog,
    CloseTicketDialog,
    TicketDialog(TicketDialogAction),
    OpenHelp,
    CloseHelp,
    Quit,
    NoOp,
}

#[derive(Debug, Clone, Copy, PartialEq, Eq, Structural)]
pub enum BoardTicketDirection {
    Left,
    Right,
    Up,
    Down,
}

#[derive(Debug, Clone, Copy, PartialEq, Eq, Structural)]
pub enum TimelineAction {
    /// A row-tree action routed to the timeline's backing tree.
    Tree(TreeAction),
    FocusFilter,
    ClearFilter,
    Filter(FilterAction),
    ScrollLeft,
    ScrollRight,
}

#[derive(Debug, Clone, Copy, PartialEq, Eq, Structural)]
pub enum TicketDialogAction {
    PreviousTab,
    NextTab,
}

/// An entry of the quick switcher.
#[derive(Debug, Clone, Copy, PartialEq, Eq, Structural)]
pub enum QuickAction {
    CommandLog,
    ThemePicker,
    ProjectPicker,
    ReloadList,
    ReloadBoard,
    ReloadTimeline,
    Board,
    List,
    Timeline,
    Shortcuts,
}

pub open spec fn quick_action_label(action: QuickAction) -> Seq<char> {
    match action {
        QuickAction::CommandLog => "Command log"@,
        QuickAction::ThemePicker => "Theme picker"@,
        QuickAction::ProjectPicker => "Project picker"@,
        QuickAction::ReloadList => "Reload list"@,
        QuickAction::ReloadBoard => "Reload board"@,
        QuickAction::ReloadTimeline => "Reload timeline"@,
        QuickAction::Board => "Go to Board"@,
        QuickAction::List => "Go to List"@,
        QuickAction::Timeline => "Go to Timeline"@,
        QuickAction::Shortcuts => "Shortcuts"@,
    }
}

impl QuickAction {
    pub fn label(self) -> (r: String)
        ensures
            r@ == quick_action_label(self),
    {
        let text = match self {
            QuickAction::CommandLog => "Command log",
            QuickAction::ThemePicker => "Theme picker",
            QuickAction::ProjectPicker => "Project picker",
            QuickAction::ReloadList => "Reload list",
            QuickAction::ReloadBoard => "Reload board",
            QuickAction::ReloadTimeline => "Reload timeline",
            QuickAction::Board => "Go to Board",
            QuickAction::List => "Go to List",
            QuickAction::Timeline => "Go to Timeline",
            QuickAction::Shortcuts => "Shortcuts",
        };
        text.to_owned()
    }
}

} // verus!
