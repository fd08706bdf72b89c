//! The focusable search-filter input shared by lists, trees and dropdowns.
use vstd::prelude::*;
use vstd::string::StrSliceExecFns;
use crate::input::{self, word_left, word_right};

verus! {

#[derive(Debug, Clone, Copy, PartialEq, Eq, Structural)]
pub enum FilterAction {
    Text(char),
    Backspace,
    Exit,
    Submit,
    Quit,
    NoOp,
    MoveCursorStart,
    MoveCursorEnd,
    Clear,
    MoveCursorWordLeft,
    MoveCursorWordRight,
    DeleteWordLeft,
    DeleteWordRight,
    MoveCursorLeft,
    MoveCursorRight,
    DeleteToEnd,
    DeleteToStart,
    /// Deletes the character under the cursor.
    Delete,
    /// Asks the owner of the filter to move its selection up; the text is untouched.
    MoveSelectionUp,
    /// Asks the owner of the filter to move its selection down; the text is untouched.
    MoveSelectionDown,
}

#[derive(Debug, Clone, Copy, PartialEq, Eq, Structural)]
pub enum FilterEvent {
    Changed,
    Blurred,
}

/// The abstract state of a filter: its text, focus flag and cursor.
pub struct FilterView {
    pub value: Seq<char>,
    pub focused: bool,
    pub cursor: nat,
}

#[derive(Debug, Clone, PartialEq, Eq)]
pub struct FilterState {
    value: String,
    focused: bool,
    cursor: usize,
}

impl View for FilterState {
    type V = FilterView;

    closed spec fn view(&self) -> FilterView {
        FilterView { value: self.value@, focused: self.focused, cursor: self.cursor as nat }
    }
}

/// The filter keeps its cursor within its text.
pub open spec fn filter_wf(v: FilterView) -> bool {
    v.cursor <= v.value.len()
}

pub open spec fn with_text(v: FilterView, value: Seq<char>, cursor: nat) -> FilterView {
    FilterView { value, focused: v.focused, cursor }
}

/// What one filter action does to the filter, and the event it reports.
pub open spec fn filter_step(v: FilterView, action: FilterAction) -> (FilterView, Option<
    FilterEvent,
>) {
    let s = v.value;
    let c = v.cursor;
    match action {
        FilterAction::Text(ch) => (
            with_text(v, if c >= s.len() { s.push(ch) } else { s.insert(c as int, ch) }, c + 1),
            Some(FilterEvent::Changed),
        ),
        FilterAction::Backspace => (
            if c == 0 {
                v
            } else {
                with_text(
                    v,
                    if c - 1 < s.len() { s.remove(c - 1) } else { s },
                    (c - 1) as nat,
                )
            },
            Some(FilterEvent::Changed),
        ),
        FilterAction::Exit | FilterAction::Submit => (
            FilterView { value: s, focused: false, cursor: c },
            Some(FilterEvent::Blurred),
        ),
        FilterAction::Quit | FilterAction::NoOp | FilterAction::MoveSelectionUp
        | FilterAction::MoveSelectionDown => (v, None),
        FilterAction::MoveCursorStart => (with_text(v, s, 0), None),
        FilterAction::MoveCursorEnd => (with_text(v, s, s.len()), None),
        FilterAction::Clear => (with_text(v, Seq::empty(), 0), Some(FilterEvent::Changed)),
        FilterAction::MoveCursorWordLeft => (
            with_text(v, s, if c == 0 { 0 } else { word_left(s, c as int) as nat }),
            None,
        ),
        FilterAction::MoveCursorWordRight => (
            with_text(v, s, if c >= s.len() { c } else { word_right(s, c as int) as nat }),
            None,
        ),
        FilterAction::DeleteWordLeft => {
            let nc: nat = if c == 0 { 0 } else { word_left(s, c as int) as nat };
            (with_text(v, s.take(nc as int) + s.skip(c as int), nc), Some(FilterEvent::Changed))
        },
        FilterAction::DeleteWordRight => (
            with_text(
                v,
                if c < s.len() { s.take(c as int) + s.skip(word_right(s, c as int)) } else { s },
                c,
            ),
            Some(FilterEvent::Changed),
        ),
        FilterAction::MoveCursorLeft => (
            with_text(v, s, if c > 0 { (c - 1) as nat } else { 0 }),
            None,
        ),
        FilterAction::MoveCursorRight => (
            with_text(v, s, if c < s.len() { c + 1 } else { c }),
            None,
        ),
        FilterAction::DeleteToEnd => (
            with_text(v, if c < s.len() { s.take(c as int) } else { s }, c),
            Some(FilterEvent::Changed),
        ),
        FilterAction::DeleteToStart => (
            with_text(v, if c < s.len() { s.skip(c as int) } else { Seq::empty() }, 0),
            Some(FilterEvent::Changed),
        ),
        FilterAction::Delete => (
            with_text(v, if c < s.len() { s.remove(c as int) } else { s }, c),
            Some(FilterEvent::Changed),
        ),
    }
}

impl Default for FilterState {
    fn default() -> (r: Self)
        ensures
            r@.value == Seq::<char>::empty(),
            !r@.focused,
            r@.cursor == 0,
    {
        FilterState { value: String::new(), focused: false, cursor: 0 }
    }
}

impl FilterState {
    /// Whether the cursor lies within the text.
    pub closed spec fn wf(&self) -> bool {
        filter_wf(self@)
    }

    pub proof fn lemma_wf(&self)
        ensures
            self.wf() <==> filter_wf(self@),
    {
    }

    pub fn value(&self) -> (r: &str)
        ensures
            r@ == self@.value,
    {
        self.value.as_str()
    }

    pub fn cursor(&self) -> (r: usize)
        ensures
            r == self@.cursor,
    {
        self.cursor
    }

    pub fn is_focused(&self) -> (r: bool)
        ensures
            r == self@.focused,
    {
        self.focused
    }

    /// Focuses the filter and puts the cursor after the last character.
    pub fn focus(&mut self)
        ensures
            final(self)@.value == old(self)@.value,
            final(self)@.focused,
            final(self)@.cursor == old(self)@.value.len(),
    {
        self.focused = true;
        self.cursor = self.value.as_str().unicode_len();
    }

    pub fn clear_focus(&mut self)
        ensures
            final(self)@.value == old(self)@.value,
            !final(self)@.focused,
            final(self)@.cursor == old(self)@.cursor,
    {
        self.focused = false;
    }

    /// Empties the text, resets the cursor and drops focus.
    pub fn clear(&mut self)
        ensures
            final(self)@.value == Seq::<char>::empty(),
            !final(self)@.focused,
            final(self)@.cursor == 0,
    {
        self.value = String::new();
        self.cursor = 0;
        self.focused = false;
    }

    /// Applies one editing or focus action.
    pub fn dispatch(&mut self, action: FilterAction) -> (r: Option<FilterEvent>)
        requires
            filter_wf(old(self)@),
            old(self)@.value.len() < isize::MAX,
        ensures
            (final(self)@, r) == filter_step(old(self)@, action),
            filter_wf(final(self)@),
    {
        let ghost s = self.value@;
        match action {
            FilterAction::Text(c) => {
                input::insert_char(&mut self.value, &mut self.cursor, c);
                Some(FilterEvent::Changed)
            },
            FilterAction::Backspace => {
                input::delete_backwards(&mut self.value, &mut self.cursor);
                Some(FilterEvent::Changed)
            },
            FilterAction::Exit | FilterAction::Submit => {
                self.focused = false;
                Some(FilterEvent::Blurred)
            },
            FilterAction::Quit | FilterAction::NoOp | FilterAction::MoveSelectionUp
            | FilterAction::MoveSelectionDown => None,
            FilterAction::MoveCursorStart => {
                self.cursor = 0;
                None
            },
            FilterAction::MoveCursorEnd => {
                self.cursor = self.value.as_str().unicode_len();
                None
            },
            FilterAction::Clear => {
                self.value = String::new();
                self.cursor = 0;
                Some(FilterEvent::Changed)
            },
            FilterAction::MoveCursorWordLeft => {
                input::move_word_left(self.value.as_str(), &mut self.cursor);
                None
            },
            FilterAction::MoveCursorWordRight => {
                input::move_word_right(self.value.as_str(), &mut self.cursor);
                None
            },
            FilterAction::DeleteWordLeft => {
                proof {
                    if self.cursor > 0 {
                        input::lemma_skip_left_bounds(s, self.cursor as int, true);
                        input::lemma_skip_left_bounds(
                            s,
                            input::skip_left(s, self.cursor as int, true),
                            false,
                        );
                    }
                }
                input::delete_word_left(&mut self.value, &mut self.cursor);
                Some(FilterEvent::Changed)
            },
            FilterAction::DeleteWordRight => {
                input::delete_word_right(&mut self.value, self.cursor);
                Some(FilterEvent::Changed)
            },
            FilterAction::MoveCursorLeft => {
                input::move_left(&mut self.cursor);
                None
            },
            FilterAction::MoveCursorRight => {
                input::move_right(self.value.as_str(), &mut self.cursor);
                None
            },
            FilterAction::DeleteToEnd => {
                input::delete_to_end(&mut self.value, self.cursor);
                Some(FilterEvent::Changed)
            },
            FilterAction::DeleteToStart => {
                input::delete_to_start(&mut self.value, &mut self.cursor);
                Some(FilterEvent::Changed)
            },
            FilterAction::Delete => {
                input::delete_forwards(&mut self.value, self.cursor);
                Some(FilterEvent::Changed)
            },
        }
    }
}


/// Typing a character and deleting it again restores the filter line.
pub proof fn lemma_text_then_backspace(v: FilterView, ch: char)
    requires
        filter_wf(v),
    ensures
        filter_step(filter_step(v, FilterAction::Text(ch)).0, FilterAction::Backspace).0 == v,
{
    let s = v.value;
    let c = v.cursor;
    let typed = filter_step(v, FilterAction::Text(ch)).0;
    if c >= s.len() {
        assert(typed.value.remove(c as int) =~= s);
    } else {
        assert(typed.value.remove(c as int) =~= s);
    }
}
} // verus!
