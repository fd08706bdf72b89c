//! Selection state of a row of tabs whose titles are supplied by the caller.
use vstd::prelude::*;
use crate::text::str_eq;

verus! {

#[derive(Debug, Clone, Copy, PartialEq, Eq, Structural)]
pub enum TabAction {
    Previous,
    Next,
}

#[derive(Debug, Clone, Copy, PartialEq, Eq, Structural)]
pub enum TabsViewMode {
    Classic,
    Minimal,
}

#[derive(Debug, Clone, Copy, PartialEq, Eq, Structural)]
pub struct TabsState {
    selected: usize,
    view_mode: TabsViewMode,
}

impl TabsState {
    pub closed spec fn spec_selected(self) -> nat {
        self.selected as nat
    }

    pub closed spec fn spec_view_mode(self) -> TabsViewMode {
        self.view_mode
    }

    /// A tab row with `selected` chosen, in the minimal view mode.
    pub fn new(selected: usize) -> (r: Self)
        ensures
            r.spec_selected() == selected,
            r.spec_view_mode() == TabsViewMode::Minimal,
    {
        TabsState { selected, view_mode: TabsViewMode::Minimal }
    }

    pub fn selected_index(&self) -> (r: usize)
        ensures
            r == self.spec_selected(),
    {
        self.selected
    }

    /// The title of the selected tab, if the selection is within `tabs`.
    pub fn active_title<'a>(&self, tabs: &'a [&'a str]) -> (r: Option<&'a str>)
        ensures
            r == if self.spec_selected() < tabs@.len() {
                Some(tabs@[self.spec_selected() as int])
            } else {
                None::<&'a str>
            },
    {
        if self.selected < tabs.len() {
            Some(tabs[self.selected])
        } else {
            None
        }
    }

    pub fn set_selected(&mut self, selected: usize)
        ensures
            final(self).spec_selected() == selected,
            final(self).spec_view_mode() == old(self).spec_view_mode(),
    {
        self.selected = selected;
    }

    pub fn view_mode(&self) -> (r: TabsViewMode)
        ensures
            r == self.spec_view_mode(),
    {
        self.view_mode
    }

    pub fn set_view_mode(&mut self, view_mode: TabsViewMode)
        ensures
            final(self).spec_view_mode() == view_mode,
            final(self).spec_selected() == old(self).spec_selected(),
    {
        self.view_mode = view_mode;
    }

    /// Whether the selected tab's title is `title`.
    pub fn is_active(&self, tabs: &[&str], title: &str) -> (r: bool)
        ensures
            r == (self.spec_selected() < tabs@.len() && tabs@[self.spec_selected() as int]@
                == title@),
    {
        match self.active_title(tabs) {
            Some(active) => str_eq(active, title),
            None => false,
        }
    }

    /// Moves the selection one tab back or forward, wrapping at both ends.
    pub fn dispatch(&mut self, action: TabAction, tabs: &[&str])
        requires
            action == TabAction::Next ==> old(self).spec_selected() < usize::MAX,
        ensures
            final(self).spec_view_mode() == old(self).spec_view_mode(),
            final(self).spec_selected() == tab_step(
                old(self).spec_selected(),
                action,
                tabs@.len(),
            ),
    {
        if tabs.len() == 0 {
            self.selected = 0;
            return;
        }
        match action {
            TabAction::Previous => self.previous(tabs.len()),
            TabAction::Next => self.next(tabs.len()),
        }
    }

    fn previous(&mut self, tab_count: usize)
        requires
            tab_count > 0,
        ensures
            final(self).selected == if old(self).selected == 0 {
                tab_count - 1
            } else {
                old(self).selected - 1
            },
            final(self).view_mode == old(self).view_mode,
    {
        self.selected = if self.selected == 0 { tab_count - 1 } else { self.selected - 1 };
    }

    fn next(&mut self, tab_count: usize)
        requires
            tab_count > 0,
            old(self).selected < usize::MAX,
        ensures
            final(self).selected == (old(self).selected as int + 1) % (tab_count as int),
            final(self).view_mode == old(self).view_mode,
    {
        self.selected = (self.selected + 1) % tab_count;
    }
}

/// The selected index after one tab action over `count` tabs.
pub open spec fn tab_step(selected: nat, action: TabAction, count: nat) -> nat {
    if count == 0 {
        0
    } else {
        match action {
            TabAction::Previous => if selected == 0 { (count - 1) as nat } else { (selected - 1) as nat },
            TabAction::Next => ((selected + 1) as int % (count as int)) as nat,
        }
    }
}


/// Stepping to the next tab and back returns to the tab one started on, and
/// so does stepping back and then forward.
pub proof fn lemma_next_previous_inverse(selected: nat, count: nat)
    requires
        selected < count,
    ensures
        tab_step(tab_step(selected, TabAction::Next, count), TabAction::Previous, count) == selected,
        tab_step(tab_step(selected, TabAction::Previous, count), TabAction::Next, count) == selected,
{
    if selected + 1 < count {
        vstd::arithmetic::div_mod::lemma_fundamental_div_mod_converse((selected + 1) as int, count as int, 0, (selected + 1) as int);
    } else {
        vstd::arithmetic::div_mod::lemma_fundamental_div_mod_converse((selected + 1) as int, count as int, 1, 0);
    }
    if selected > 0 {
        vstd::arithmetic::div_mod::lemma_fundamental_div_mod_converse(selected as int, count as int, 0, selected as int);
    } else {
        vstd::arithmetic::div_mod::lemma_fundamental_div_mod_converse(count as int, count as int, 1, 0);
    }
}
} // verus!
