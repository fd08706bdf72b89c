//! The entries of the keyboard help dialog.
use vstd::prelude::*;

verus! {

#[derive(Debug, Clone, Copy, PartialEq, Eq, Structural)]
pub enum HelpScope {
    Local,
    Global,
}

#[derive(Debug, Clone, Copy, PartialEq, Eq, Structural)]
pub enum HelpContext {
    Normal,
    Dropdown,
    CommandLog,
    TicketDialog,
}

#[derive(Debug, Clone, PartialEq, Eq)]
pub struct HelpItem {
    pub scope: HelpScope,
    pub binding: String,
    pub summary: String,
    pub description: String,
}

pub struct HelpItemView {
    pub scope: HelpScope,
    pub binding: Seq<char>,
    pub summary: Seq<char>,
    pub description: Seq<char>,
}

impl View for HelpItem {
    type V = HelpItemView;

    open spec fn view(&self) -> HelpItemView {
        HelpItemView {
            scope: self.scope,
            binding: self.binding@,
            summary: self.summary@,
            description: self.description@,
        }
    }
}

pub open spec fn help_item_views(items: Seq<HelpItem>) -> Seq<HelpItemView> {
    items.map_values(|i: HelpItem| i@)
}

#[derive(Debug, Clone, Copy, PartialEq, Eq, Structural)]
pub enum HelpDialogAction {
    Close,
    Up,
    Down,
    PageUp,
    PageDown,
    First,
    Last,
    NoOp,
}

} // verus!
