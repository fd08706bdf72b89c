//! The application's top-level tabs and screens.
use vstd::prelude::*;

verus! {

/// A top-level application tab. Declaration order is display order.
#[derive(Debug, Clone, Copy, PartialEq, Eq, Structural)]
pub enum ApplicationTab {
    Board,
    List,
    Timeline,
}

/// Position of a tab in display order.
pub open spec fn tab_index(tab: ApplicationTab) -> nat {
    match tab {
        ApplicationTab::Board => 0,
        ApplicationTab::List => 1,
        ApplicationTab::Timeline => 2,
    }
}

pub open spec fn tab_title(tab: ApplicationTab) -> &'static str {
    match tab {
        ApplicationTab::Board => "Board",
        ApplicationTab::List => "List",
        ApplicationTab::Timeline => "Timeline",
    }
}

impl ApplicationTab {
    pub fn title(self) -> (r: &'static str)
        ensures
            r == tab_title(self),
    {
        match self {
            ApplicationTab::Board => "Board",
            ApplicationTab::List => "List",
            ApplicationTab::Timeline => "Timeline",
        }
    }

    /// Every tab, in display order.
    pub fn all() -> (r: [ApplicationTab; 3])
        ensures
            r@ == seq![ApplicationTab::Board, ApplicationTab::List, ApplicationTab::Timeline],
    {
        [ApplicationTab::Board, ApplicationTab::List, ApplicationTab::Timeline]
    }

    pub fn index(self) -> (r: usize)
        ensures
            r == tab_index(self),
    {
        match self {
            ApplicationTab::Board => 0,
            ApplicationTab::List => 1,
            ApplicationTab::Timeline => 2,
        }
    }

    /// The tab at a display position.
    pub fn from_index(index: usize) -> (r: Option<ApplicationTab>)
        ensures
            match r {
                Some(tab) => tab_index(tab) == index,
                None => index >= 3,
            },
    {
        if index == 0 {
            Some(ApplicationTab::Board)
        } else if index == 1 {
            Some(ApplicationTab::List)
        } else if index == 2 {
            Some(ApplicationTab::Timeline)
        } else {
            None
        }
    }
}

/// A tab's position names the tab: `from_index` undoes `index`.
pub proof fn lemma_tab_index_round_trip(tab: ApplicationTab)
    ensures
        tab_index(tab) < 3,
        forall|other: ApplicationTab| tab_index(other) == tab_index(tab) ==> other == tab,
{
}

/// The titles of the tabs, in display order.
pub fn app_tabs() -> (r: [&'static str; 3])
    ensures
        r@ == seq![tab_title(ApplicationTab::Board), tab_title(ApplicationTab::List), tab_title(ApplicationTab::Timeline)],
{
    [ApplicationTab::Board.title(), ApplicationTab::List.title(), ApplicationTab::Timeline.title()]
}

#[derive(Debug, Clone, Copy, PartialEq, Eq, Structural)]
pub enum Screen {
    Setup,
    Main,
}

} // verus!
