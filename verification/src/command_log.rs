//! Scrolling in the command-log dialog, and the dialogs the application can
//! show one at a time.
use vstd::prelude::*;

verus! {

/// Identifies a modal dialog without its own view state.
#[derive(Debug, Clone, Copy, PartialEq, Eq, Structural)]
pub enum DialogKind {
    CommandLog,
    Help,
    SprintDetails,
}

/// The open modal dialog with its own view state (the help dialog's cursor).
#[derive(Debug, Clone, PartialEq, Eq, Structural)]
pub enum ModalState {
    CommandLog,
    SprintDetails,
    Help { selected: usize },
}

impl ModalState {
    /// Which dialog this is.
    pub fn kind(&self) -> (r: DialogKind)
        ensures
            r == (match *self {
                ModalState::CommandLog => DialogKind::CommandLog,
                ModalState::SprintDetails => DialogKind::SprintDetails,
                ModalState::Help { .. } => DialogKind::Help,
            }),
    {
        match self {
            ModalState::CommandLog => DialogKind::CommandLog,
            ModalState::SprintDetails => DialogKind::SprintDetails,
            ModalState::Help { .. } => DialogKind::Help,
        }
    }
}

/// Scroll state of the command-log dialog: a wrapped-line offset from the
/// top, whether the view follows the newest entry at the bottom, the line
/// total and viewport height of the latest render, and whether a first `g`
/// is waiting for a second.
#[derive(Debug, Clone, PartialEq, Eq, Structural)]
pub struct CommandLogView {
    pub offset: usize,
    pub follow: bool,
    pub last_total: usize,
    pub last_viewport: usize,
    pub go_to_start_pending: bool,
}

/// The furthest the log can scroll: the lines beyond one viewport (a
/// viewport counts at least one line).
pub open spec fn max_scroll_spec(v: CommandLogView) -> int {
    let viewport = if v.last_viewport < 1 { 1 } else { v.last_viewport as int };
    if v.last_total >= viewport {
        v.last_total - viewport
    } else {
        0
    }
}

/// Where a scroll by `delta` lines lands: from the bottom when following,
/// else from the offset (held within range), and clamped to the range.
pub open spec fn scrolled_offset(v: CommandLogView, delta: int) -> int {
    let max = max_scroll_spec(v);
    let current = if v.follow {
        max
    } else if v.offset < max {
        v.offset as int
    } else {
        max
    };
    let next = current + delta;
    if next < 0 {
        0
    } else if next > max {
        max
    } else {
        next
    }
}

/// The lines one page moves: the viewport height, at least one.
pub open spec fn page_lines(v: CommandLogView) -> int {
    if v.last_viewport < 1 {
        1
    } else {
        v.last_viewport as int
    }
}

/// The lines half a page moves: half the viewport height, at least one.
pub open spec fn half_page_lines(v: CommandLogView) -> int {
    (if v.last_viewport < 2 {
        2
    } else {
        v.last_viewport as int
    }) / 2
}

impl Default for CommandLogView {
    fn default() -> (r: Self)
        ensures
            r == (CommandLogView {
                offset: 0,
                follow: false,
                last_total: 0,
                last_viewport: 0,
                go_to_start_pending: false,
            }),
    {
        CommandLogView {
            offset: 0,
            follow: false,
            last_total: 0,
            last_viewport: 0,
            go_to_start_pending: false,
        }
    }
}

impl CommandLogView {
    /// Opens the log on its newest entry.
    pub fn open(&mut self)
        ensures
            *final(self) == (CommandLogView {
                follow: true,
                offset: 0,
                go_to_start_pending: false,
                ..*old(self)
            }),
    {
        self.follow = true;
        self.offset = 0;
        self.go_to_start_pending = false;
    }

    pub fn follows_tail(&self) -> (r: bool)
        ensures
            r == self.follow,
    {
        self.follow
    }

    pub fn scroll(&self) -> (r: usize)
        ensures
            r == self.offset,
    {
        self.offset
    }

    /// Records the clamped offset, the wrapped-line total and the viewport
    /// height of the latest render; following is left as it was.
    pub fn cache_layout(&mut self, scroll: usize, total: usize, viewport: usize)
        ensures
            *final(self) == (CommandLogView {
                offset: scroll,
                last_total: total,
                last_viewport: viewport,
                ..*old(self)
            }),
    {
        self.offset = scroll;
        self.last_total = total;
        self.last_viewport = viewport;
    }

    pub fn max_scroll(&self) -> (r: usize)
        ensures
            r == max_scroll_spec(*self),
    {
        let viewport = if self.last_viewport < 1 {
            1
        } else {
            self.last_viewport
        };
        self.last_total.saturating_sub(viewport)
    }

    /// Scrolls by `delta` wrapped lines; the view follows the newest entry
    /// exactly when it ends at the bottom.
    pub fn scroll_by(&mut self, delta: isize)
        requires
            old(self).last_total <= isize::MAX,
            old(self).last_total + delta <= isize::MAX,
        ensures
            final(self).offset == scrolled_offset(*old(self), delta as int),
            final(self).follow == (scrolled_offset(*old(self), delta as int) >= max_scroll_spec(
                *old(self),
            )),
            !final(self).go_to_start_pending,
            final(self).last_total == old(self).last_total,
            final(self).last_viewport == old(self).last_viewport,
    {
        self.go_to_start_pending = false;
        let max_scroll = self.max_scroll();
        let current = if self.follow {
            max_scroll
        } else if self.offset < max_scroll {
            self.offset
        } else {
            max_scroll
        };
        let moved = current as isize + delta;
        let max = max_scroll as isize;
        let next = if moved < 0 {
            0
        } else if moved > max {
            max
        } else {
            moved
        };
        self.offset = next as usize;
        self.follow = self.offset >= max_scroll;
    }

    /// Scrolls one page in `direction` (-1 up, 1 down).
    pub fn page(&mut self, direction: isize)
        requires
            old(self).last_total <= isize::MAX,
            old(self).last_viewport <= isize::MAX,
            isize::MIN <= direction * page_lines(*old(self)) <= isize::MAX,
            old(self).last_total + direction * page_lines(*old(self)) <= isize::MAX,
        ensures
            final(self).offset == scrolled_offset(*old(self), direction * page_lines(*old(self))),
            final(self).follow == (scrolled_offset(*old(self), direction * page_lines(*old(self)))
                >= max_scroll_spec(*old(self))),
            !final(self).go_to_start_pending,
    {
        let viewport = if self.last_viewport < 1 {
            1
        } else {
            self.last_viewport
        } as isize;
        self.scroll_by(direction * viewport);
    }

    /// Scrolls half a page in `direction` (-1 up, 1 down).
    pub fn half_page(&mut self, direction: isize)
        requires
            old(self).last_total <= isize::MAX,
            old(self).last_viewport <= isize::MAX,
            isize::MIN <= direction * half_page_lines(*old(self)) <= isize::MAX,
            old(self).last_total + direction * half_page_lines(*old(self)) <= isize::MAX,
        ensures
            final(self).offset == scrolled_offset(
                *old(self),
                direction * half_page_lines(*old(self)),
            ),
            final(self).follow == (scrolled_offset(
                *old(self),
                direction * half_page_lines(*old(self)),
            ) >= max_scroll_spec(*old(self))),
            !final(self).go_to_start_pending,
    {
        let viewport = if self.last_viewport < 2 {
            2
        } else {
            self.last_viewport
        };
        let half = (viewport / 2) as isize;
        self.scroll_by(direction * half);
    }

    /// Jumps to the first entry and stops following.
    pub fn to_start(&mut self)
        ensures
            *final(self) == (CommandLogView {
                go_to_start_pending: false,
                follow: false,
                offset: 0,
                ..*old(self)
            }),
    {
        self.go_to_start_pending = false;
        self.follow = false;
        self.offset = 0;
    }

    /// Jumps to the newest entry and follows it.
    pub fn to_end(&mut self)
        ensures
            *final(self) == (CommandLogView { go_to_start_pending: false, follow: true, ..*old(self) }),
    {
        self.go_to_start_pending = false;
        self.follow = true;
    }

    /// A `g` press: the first arms the prefix, the second (`gg`) jumps to the
    /// first entry.
    pub fn arm_go_to_start(&mut self)
        ensures
            old(self).go_to_start_pending ==> *final(self) == (CommandLogView {
                go_to_start_pending: false,
                follow: false,
                offset: 0,
                ..*old(self)
            }),
            !old(self).go_to_start_pending ==> *final(self) == (CommandLogView {
                go_to_start_pending: true,
                ..*old(self)
            }),
    {
        if self.go_to_start_pending {
            self.to_start();
        } else {
            self.go_to_start_pending = true;
        }
    }
}

/// Scrolling never leaves the log's range, and the view follows the newest
/// entry exactly when it rests at the bottom.
pub proof fn lemma_scroll_stays_in_range(v: CommandLogView, delta: int)
    ensures
        0 <= scrolled_offset(v, delta) <= max_scroll_spec(v),
        v.follow && delta >= 0 ==> scrolled_offset(v, delta) == max_scroll_spec(v),
{
}

} // verus!
