//! A filterable dropdown of options with single- or multi-selection. In
//! multi-select mode the selected options are listed first, then a
//! separator, then the rest.
use vstd::prelude::*;
use crate::filter::{filter_step, filter_wf, FilterAction, FilterEvent, FilterState, FilterView};
use crate::fuzzy::{fuzzy_matches, skim_accepts};
use crate::tree::{sat_add_signed, saturating_add_signed};

verus! {

/// Rows moved by a half-page jump.
pub const DROPDOWN_HALF_PAGE_STEP: isize = 10;
/// Viewport height assumed before the first render.
pub const DEFAULT_VIEWPORT_HEIGHT: usize = 21;

#[derive(Debug, Clone, Copy, PartialEq, Eq, Structural)]
pub enum DropdownAction {
    Filter(FilterAction),
    FocusFilter,
    ClearFilter,
    MoveUp,
    MoveDown,
    HalfPageUp,
    HalfPageDown,
    GoToEnd,
    /// Jumps straight to the first visible option.
    GoToStart,
    GotoPrefix,
    ToggleSelected,
    Close,
    NoOp,
}

#[derive(Debug, Clone, PartialEq, Eq, Structural)]
pub enum DropdownEvent {
    Toggled(usize),
    Closed,
}

#[derive(Debug, Clone, PartialEq, Eq)]
pub struct DropdownOption<T> {
    pub value: T,
    pub label: String,
    pub selected: bool,
}

#[derive(Debug, Clone, Copy, PartialEq, Eq)]
pub enum DropdownVisibleOption<'a, T> {
    Option { index: usize, option: &'a DropdownOption<T> },
    Separator,
    NoResults,
}

#[derive(Debug, Clone, Copy, PartialEq, Eq, Structural)]
pub enum DropdownSelectionMode {
    Multiple,
    Single,
}

#[derive(Debug, Clone, PartialEq, Eq)]
pub struct MultiSelectDropdownState<T> {
    filter: FilterState,
    options: Vec<DropdownOption<T>>,
    selected_index: usize,
    scroll: usize,
    last_viewport_height: usize,
    pending_goto_prefix: bool,
    at_least_one_selection_required: bool,
    selection_mode: DropdownSelectionMode,
}

/// The abstract state of a dropdown.
#[verifier::ext_equal]
pub struct DropdownView<T> {
    pub filter: FilterView,
    pub options: Seq<DropdownOption<T>>,
    pub selected_index: nat,
    pub scroll: nat,
    pub viewport: nat,
    pub pending_prefix: bool,
    pub at_least_one: bool,
    pub single: bool,
}

impl<T> View for MultiSelectDropdownState<T> {
    type V = DropdownView<T>;

    closed spec fn view(&self) -> DropdownView<T> {
        DropdownView {
            filter: self.filter@,
            options: self.options@,
            selected_index: self.selected_index as nat,
            scroll: self.scroll as nat,
            viewport: self.last_viewport_height as nat,
            pending_prefix: self.pending_goto_prefix,
            at_least_one: self.at_least_one_selection_required,
            single: self.selection_mode == DropdownSelectionMode::Single,
        }
    }
}

/// Whether option `o` passes the filter text `f`.
pub open spec fn option_matches<T>(o: DropdownOption<T>, f: Seq<char>) -> bool {
    f.len() == 0 || skim_accepts(o.label@, f)
}

/// Indices below `k` of the options that pass the filter and, when `want` is
/// given, whose selection flag equals it.
pub open spec fn matching<T>(opts: Seq<DropdownOption<T>>, f: Seq<char>, want: Option<bool>, k: int) -> Seq<
    usize,
>
    decreases k,
{
    if k <= 0 {
        Seq::empty()
    } else {
        matching(opts, f, want, k - 1) + if option_matches(opts[k - 1], f) && match want {
            Some(b) => opts[k - 1].selected == b,
            None => true,
        } {
            seq![(k - 1) as usize]
        } else {
            Seq::empty()
        }
    }
}

/// The visible option indices: matching options in order in single-select
/// mode; the selected ones first, then the unselected ones otherwise.
pub open spec fn visible_spec<T>(v: DropdownView<T>) -> Seq<usize> {
    let n = v.options.len() as int;
    if v.single {
        matching(v.options, v.filter.value, None, n)
    } else {
        matching(v.options, v.filter.value, Some(true), n) + matching(
            v.options,
            v.filter.value,
            Some(false),
            n,
        )
    }
}

/// How many visible options are selected (they lead the list in multi mode).
pub open spec fn selected_visible<T>(v: DropdownView<T>) -> nat {
    if v.single {
        count_selected(v.options, matching(v.options, v.filter.value, None, v.options.len() as int))
    } else {
        matching(v.options, v.filter.value, Some(true), v.options.len() as int).len()
    }
}

/// Number of the listed options that are selected.
pub open spec fn count_selected<T>(opts: Seq<DropdownOption<T>>, idx: Seq<usize>) -> nat
    decreases idx.len(),
{
    if idx.len() == 0 {
        0
    } else {
        count_selected(opts, idx.drop_last()) + if opts[idx.last() as int].selected {
            1nat
        } else {
            0nat
        }
    }
}

/// Whether a separator row splits selected from unselected options.
pub open spec fn has_separator_spec<T>(v: DropdownView<T>) -> bool {
    let sc = selected_visible(v);
    !v.single && sc > 0 && sc < visible_spec(v).len()
}

/// Rows shown: one per visible option plus the separator, or a single
/// "no results" row.
pub open spec fn row_count_spec<T>(v: DropdownView<T>) -> nat {
    let rows = visible_spec(v);
    if rows.len() == 0 {
        1
    } else {
        rows.len() + if has_separator_spec(v) { 1nat } else { 0nat }
    }
}

/// The position of option `i` among the visible ones, or 0 if hidden.
pub open spec fn position_from(rows: Seq<usize>, i: nat, p: int) -> nat
    decreases rows.len() - p,
{
    if p < 0 || p >= rows.len() {
        0
    } else if rows[p] == i {
        p as nat
    } else {
        position_from(rows, i, p + 1)
    }
}

pub open spec fn position_of(rows: Seq<usize>, i: nat) -> nat {
    position_from(rows, i, 0)
}

/// Scrolls so the selection sits in the middle of the last viewport.
pub open spec fn scroll_to_selection_spec<T>(v: DropdownView<T>) -> DropdownView<T> {
    let rows = visible_spec(v);
    let sep = has_separator_spec(v);
    let count = rows.len() + if sep { 1int } else { 0int };
    if count == 0 {
        DropdownView { scroll: 0, ..v }
    } else {
        let sc = selected_visible(v);
        let pos = position_of(rows, v.selected_index) as int;
        let pos = pos + if sep && pos >= sc { 1int } else { 0int };
        let vh = if v.viewport < 1 { 1int } else { v.viewport as int };
        let viewport = if vh < count { vh } else { count };
        let middle = viewport / 2;
        let max_scroll = count - viewport;
        let s = if pos > middle { pos - middle } else { 0 };
        DropdownView { scroll: (if s < max_scroll { s } else { max_scroll }) as nat, ..v }
    }
}

pub open spec fn move_selection_spec<T>(v: DropdownView<T>, delta: int) -> DropdownView<T> {
    let rows = visible_spec(v);
    if rows.len() == 0 {
        DropdownView { selected_index: 0, scroll: 0, ..v }
    } else {
        let cur = position_of(rows, v.selected_index) as int;
        let next = sat_add_signed(cur, delta);
        let next = if next > rows.len() - 1 { rows.len() - 1 } else { next };
        scroll_to_selection_spec(DropdownView { selected_index: rows[next] as nat, ..v })
    }
}

pub open spec fn go_to_end_spec<T>(v: DropdownView<T>) -> DropdownView<T> {
    let rows = visible_spec(v);
    let v0 = DropdownView { pending_prefix: false, ..v };
    if rows.len() == 0 {
        DropdownView { selected_index: 0, scroll: 0, ..v0 }
    } else {
        scroll_to_selection_spec(DropdownView { selected_index: rows.last() as nat, ..v0 })
    }
}

pub open spec fn go_to_start_spec<T>(v: DropdownView<T>) -> DropdownView<T> {
    let rows = visible_spec(v);
    DropdownView {
        pending_prefix: false,
        selected_index: if rows.len() > 0 { rows[0] as nat } else { 0 },
        scroll: 0,
        ..v
    }
}

pub open spec fn select_first_spec<T>(v: DropdownView<T>) -> DropdownView<T> {
    let rows = visible_spec(v);
    DropdownView { selected_index: if rows.len() > 0 { rows[0] as nat } else { 0 }, scroll: 0, ..v }
}

/// Number of selected options overall.
pub open spec fn total_selected<T>(opts: Seq<DropdownOption<T>>, k: int) -> nat
    decreases k,
{
    if k <= 0 {
        0
    } else {
        total_selected(opts, k - 1) + if opts[k - 1].selected { 1nat } else { 0nat }
    }
}

/// Whether option `i` may be toggled: always, unless at least one selection
/// is required and `i` is the only selected option.
pub open spec fn toggle_enabled_spec<T>(v: DropdownView<T>, i: nat) -> bool {
    !v.at_least_one || !(i < v.options.len() && v.options[i as int].selected) || total_selected(
        v.options,
        v.options.len() as int,
    ) > 1
}

/// After a toggle, keeps the cursor on the same visual line, stepping over
/// the separator when the toggled option moved across it.
pub open spec fn keep_after_toggle_spec<T>(
    v: DropdownView<T>,
    cur: nat,
    was_selected: bool,
    sc: nat,
    sep: bool,
) -> DropdownView<T> {
    let rows = visible_spec(v);
    if rows.len() == 0 {
        DropdownView { selected_index: 0, scroll: 0, ..v }
    } else {
        let before = sep && was_selected && cur + 1 == sc;
        let after = sep && !was_selected && cur == sc;
        let last = rows.len() - 1;
        let next: int = if before {
            if cur > 0 { cur - 1 } else { 0 }
        } else if after {
            if cur + 1 < last { (cur + 1) as int } else { last }
        } else {
            if cur < last { cur as int } else { last }
        };
        scroll_to_selection_spec(DropdownView { selected_index: rows[next] as nat, ..v })
    }
}

pub open spec fn set_selected_flag<T>(o: DropdownOption<T>, b: bool) -> DropdownOption<T> {
    DropdownOption { selected: b, ..o }
}

/// Toggling the option under the cursor, and the event it reports.
pub open spec fn toggle_spec<T>(v: DropdownView<T>) -> (DropdownView<T>, Option<DropdownEvent>) {
    let v0 = DropdownView { pending_prefix: false, ..v };
    let i = v.selected_index;
    let rows = visible_spec(v);
    if !rows.contains(i as usize) || i >= v.options.len() {
        (v0, None)
    } else if v.single {
        (
            DropdownView {
                options: Seq::new(
                    v.options.len(),
                    |j: int| set_selected_flag(v.options[j], j == i),
                ),
                ..v0
            },
            Some(DropdownEvent::Toggled(i as usize)),
        )
    } else if !toggle_enabled_spec(v, i) {
        (v0, None)
    } else {
        let cur = position_of(rows, i);
        let was = v.options[i as int].selected;
        let sc = selected_visible(v);
        let sep = sc > 0 && sc < rows.len();
        let v1 = DropdownView {
            options: v.options.update(i as int, set_selected_flag(v.options[i as int], !was)),
            ..v0
        };
        (keep_after_toggle_spec(v1, cur, was, sc, sep), Some(DropdownEvent::Toggled(i as usize)))
    }
}

/// What one dropdown action does, and the event it reports.
pub open spec fn dropdown_step<T>(v: DropdownView<T>, action: DropdownAction) -> (
    DropdownView<T>,
    Option<DropdownEvent>,
) {
    let v0 = DropdownView { pending_prefix: false, ..v };
    let focused = v.filter.focused;
    match action {
        DropdownAction::Filter(a) => {
            if a == FilterAction::Exit || a == FilterAction::Submit || a == FilterAction::Quit {
                (DropdownView { filter: FilterView { focused: false, ..v.filter }, ..v0 }, None)
            } else {
                let (f, ev) = filter_step(v.filter, a);
                let v1 = DropdownView { filter: f, ..v0 };
                (if ev == Some(FilterEvent::Changed) { select_first_spec(v1) } else { v1 }, None)
            }
        },
        DropdownAction::FocusFilter => (
            DropdownView {
                filter: FilterView { focused: true, cursor: v.filter.value.len(), ..v.filter },
                ..v0
            },
            None,
        ),
        DropdownAction::ClearFilter => (
            DropdownView {
                filter: FilterView { value: Seq::empty(), focused: false, cursor: 0 },
                ..v0
            },
            None,
        ),
        DropdownAction::MoveUp => if focused { (v, None) } else { (move_selection_spec(v0, -1), None) },
        DropdownAction::MoveDown => if focused { (v, None) } else { (move_selection_spec(v0, 1), None) },
        DropdownAction::HalfPageUp => if focused {
            (v, None)
        } else {
            (move_selection_spec(v0, -10), None)
        },
        DropdownAction::HalfPageDown => if focused {
            (v, None)
        } else {
            (move_selection_spec(v0, 10), None)
        },
        DropdownAction::GoToEnd => if focused { (v, None) } else { (go_to_end_spec(v), None) },
        DropdownAction::GoToStart => if focused { (v, None) } else { (go_to_start_spec(v), None) },
        DropdownAction::GotoPrefix => if focused {
            (v, None)
        } else if v.pending_prefix {
            (go_to_start_spec(v), None)
        } else {
            (DropdownView { pending_prefix: true, ..v }, None)
        },
        DropdownAction::ToggleSelected => if focused { (v, None) } else { toggle_spec(v) },
        DropdownAction::Close => if focused || v.filter.value.len() > 0 {
            (
                DropdownView {
                    filter: FilterView { value: Seq::empty(), focused: false, cursor: 0 },
                    ..v0
                },
                None,
            )
        } else {
            (v0, Some(DropdownEvent::Closed))
        },
        DropdownAction::NoOp => (v0, None),
    }
}


pub proof fn lemma_matching_bound<T>(opts: Seq<DropdownOption<T>>, f: Seq<char>, want: Option<bool>, k: int)
    requires
        k <= opts.len(),
    ensures
        forall|j: int| 0 <= j < matching(opts, f, want, k).len() ==> (#[trigger] matching(opts, f, want, k)[j]) < k,
    decreases k,
{
    if k > 0 {
        lemma_matching_bound(opts, f, want, k - 1);
        let a = matching(opts, f, want, k - 1);
        let b: Seq<usize> = if option_matches(opts[k - 1], f) && match want {
            Some(b) => opts[k - 1].selected == b,
            None => true,
        } {
            seq![(k - 1) as usize]
        } else {
            Seq::empty()
        };
        assert forall|j: int| 0 <= j < (a + b).len() implies (#[trigger] (a + b)[j]) < k by {
            if j < a.len() {
                assert((a + b)[j] == a[j]);
            } else {
                assert((a + b)[j] == b[j - a.len()]);
            }
        }
    }
}

pub proof fn lemma_matching_split<T>(opts: Seq<DropdownOption<T>>, f: Seq<char>, k: int)
    requires
        0 <= k <= opts.len(),
    ensures
        matching(opts, f, Some(true), k).len() + matching(opts, f, Some(false), k).len() == matching(
            opts,
            f,
            None,
            k,
        ).len(),
        matching(opts, f, None, k).len() <= k,
    decreases k,
{
    if k > 0 {
        lemma_matching_split(opts, f, k - 1);
    }
}

/// Matching ignoring selection depends only on the labels.
pub proof fn lemma_matching_labels<T>(
    a: Seq<DropdownOption<T>>,
    b: Seq<DropdownOption<T>>,
    f: Seq<char>,
    k: int,
)
    requires
        a.len() == b.len(),
        0 <= k <= a.len(),
        forall|j: int| 0 <= j < a.len() ==> #[trigger] a[j].label == b[j].label,
    ensures
        matching(a, f, None, k) == matching(b, f, None, k),
    decreases k,
{
    if k > 0 {
        lemma_matching_labels(a, b, f, k - 1);
        assert(a[k - 1].label == b[k - 1].label);
    }
}

pub proof fn lemma_visible_bound<T>(v: DropdownView<T>)
    ensures
        forall|j: int| 0 <= j < visible_spec(v).len() ==> (#[trigger] visible_spec(v)[j]) < v.options.len(),
{
    let n = v.options.len() as int;
    lemma_matching_bound(v.options, v.filter.value, None, n);
    lemma_matching_bound(v.options, v.filter.value, Some(true), n);
    lemma_matching_bound(v.options, v.filter.value, Some(false), n);
    if !v.single {
        let a = matching(v.options, v.filter.value, Some(true), n);
        let b = matching(v.options, v.filter.value, Some(false), n);
        assert forall|j: int| 0 <= j < (a + b).len() implies (#[trigger] (a + b)[j]) < n by {
            if j < a.len() {
                assert((a + b)[j] == a[j]);
            } else {
                assert((a + b)[j] == b[j - a.len()]);
            }
        }
    }
}

pub proof fn lemma_position_bound(rows: Seq<usize>, i: nat, p: int)
    requires
        0 <= p,
    ensures
        rows.len() > 0 ==> position_from(rows, i, p) < rows.len(),
        (exists|q: int| p <= q < rows.len() && rows[q] == i) ==> rows[position_from(rows, i, p) as int] == i,
    decreases rows.len() - p,
{
    if p < rows.len() && rows[p] != i {
        lemma_position_bound(rows, i, p + 1);
        if exists|q: int| p <= q < rows.len() && rows[q] == i {
            let q = choose|q: int| p <= q < rows.len() && rows[q] == i;
            assert(q != p);
        }
    }
}

impl<T> MultiSelectDropdownState<T> {
    /// The filter cursor lies within its text, and the option list is below
    /// the largest index (as any list of options in memory is).
    pub closed spec fn wf(&self) -> bool {
        filter_wf(self.filter@) && self.options@.len() < usize::MAX
    }

    fn matching_exec(&self, want: Option<bool>) -> (r: Vec<usize>)
        ensures
            r@ == matching(self@.options, self@.filter.value, want, self@.options.len() as int),
    {
        let f = self.filter.value();
        let mut out: Vec<usize> = Vec::new();
        let mut i: usize = 0;
        while i < self.options.len()
            invariant
                i <= self.options.len(),
                f@ == self@.filter.value,
                self@.options == self.options@,
                out@ == matching(self@.options, self@.filter.value, want, i as int),
            decreases self.options.len() - i,
        {
            let m = fuzzy_matches(self.options[i].label.as_str(), f);
            let ok = m && match want {
                Some(b) => self.options[i].selected == b,
                None => true,
            };
            if ok {
                out.push(i);
            }
            i = i + 1;
            assert(out@ =~= matching(self@.options, self@.filter.value, want, i as int));
        }
        out
    }

    /// Indices of the visible options, in display order.
    fn visible_indices(&self) -> (r: Vec<usize>)
        ensures
            r@ == visible_spec(self@),
            forall|j: int| 0 <= j < r@.len() ==> (#[trigger] r@[j]) < self.options@.len(),
    {
        proof {
            lemma_visible_bound(self@);
        }
        if self.selection_mode == DropdownSelectionMode::Single {
            return self.matching_exec(None);
        }
        let mut selected = self.matching_exec(Some(true));
        let mut unselected = self.matching_exec(Some(false));
        selected.append(&mut unselected);
        assert(selected@ == visible_spec(self@));
        assert forall|j: int| 0 <= j < selected@.len() implies (#[trigger] selected@[j]) < self.options@.len() by {
            assert(selected@[j] == visible_spec(self@)[j]);
        }
        selected
    }

    fn count_selected_exec(&self, idx: &Vec<usize>) -> (r: usize)
        requires
            forall|j: int| 0 <= j < idx@.len() ==> (#[trigger] idx@[j]) < self.options@.len(),
        ensures
            r == count_selected(self@.options, idx@),
            r <= idx@.len(),
    {
        let mut c: usize = 0;
        let mut k: usize = 0;
        while k < idx.len()
            invariant
                k <= idx.len(),
                forall|j: int| 0 <= j < idx@.len() ==> (#[trigger] idx@[j]) < self.options@.len(),
                c == count_selected(self@.options, idx@.take(k as int)),
                c <= k,
            decreases idx.len() - k,
        {
            assert(idx@.take(k + 1).drop_last() =~= idx@.take(k as int));
            if self.options[idx[k]].selected {
                c = c + 1;
            }
            k = k + 1;
        }
        assert(idx@.take(idx.len() as int) =~= idx@);
        c
    }

    fn selected_visible_exec(&self) -> (r: usize)
        ensures
            r == selected_visible(self@),
            r <= visible_spec(self@).len(),
    {
        proof {
            lemma_visible_bound(self@);
            lemma_matching_bound(self@.options, self@.filter.value, None, self@.options.len() as int);
        }
        if self.selection_mode == DropdownSelectionMode::Single {
            let rows = self.matching_exec(None);
            self.count_selected_exec(&rows)
        } else {
            self.matching_exec(Some(true)).len()
        }
    }

    fn has_separator_exec(&self) -> (r: bool)
        ensures
            r == has_separator_spec(self@),
    {
        let sc = self.selected_visible_exec();
        let rows = self.visible_indices();
        self.selection_mode == DropdownSelectionMode::Multiple && sc > 0 && sc < rows.len()
    }

    fn position_exec(rows: &Vec<usize>, i: usize) -> (r: usize)
        ensures
            r == position_of(rows@, i as nat),
            rows@.len() > 0 ==> r < rows@.len(),
            rows@.contains(i) ==> rows@[r as int] == i,
    {
        proof {
            lemma_position_bound(rows@, i as nat, 0);
            if rows@.contains(i) {
                let q = choose|q: int| 0 <= q < rows@.len() && rows@[q] == i;
                assert(exists|q: int| 0 <= q < rows@.len() && rows@[q] == i as nat);
            }
        }
        let mut p: usize = 0;
        while p < rows.len()
            invariant
                p <= rows.len(),
                position_of(rows@, i as nat) == position_from(rows@, i as nat, p as int),
            decreases rows.len() - p,
        {
            if rows[p] == i {
                return p;
            }
            p = p + 1;
        }
        0
    }

    fn scroll_to_selection(&mut self)
        requires
            old(self)@.options.len() < usize::MAX,
        ensures
            final(self)@ == scroll_to_selection_spec(old(self)@),
    {
        proof {
            lemma_matching_split(self@.options, self@.filter.value, self@.options.len() as int);
        }
        let ghost v = self@;
        let rows = self.visible_indices();
        let sep = self.has_separator_exec();
        let _n = rows.len();
        let count = rows.len() + if sep { 1 } else { 0 };
        if count == 0 {
            self.scroll = 0;
            assert(self@ =~= scroll_to_selection_spec(v));
            return;
        }
        let sc = self.selected_visible_exec();
        let pos = Self::position_exec(&rows, self.selected_index);
        let pos = pos + if sep && pos >= sc { 1 } else { 0 };
        let vh = if self.last_viewport_height < 1 { 1 } else { self.last_viewport_height };
        let viewport = if vh < count { vh } else { count };
        let middle = viewport / 2;
        let max_scroll = count - viewport;
        let s = if pos > middle { pos - middle } else { 0 };
        self.scroll = if s < max_scroll { s } else { max_scroll };
        assert(self@ =~= scroll_to_selection_spec(v));
    }

    fn move_selection(&mut self, delta: isize)
        requires
            old(self)@.options.len() < usize::MAX,
        ensures
            final(self)@ == move_selection_spec(old(self)@, delta as int),
    {
        let ghost v = self@;
        let rows = self.visible_indices();
        if rows.len() == 0 {
            self.selected_index = 0;
            self.scroll = 0;
            assert(self@ =~= move_selection_spec(v, delta as int));
            return;
        }
        let cur = Self::position_exec(&rows, self.selected_index);
        let next = saturating_add_signed(cur, delta);
        let next = if next > rows.len() - 1 { rows.len() - 1 } else { next };
        self.selected_index = rows[next];
        assert(self@ =~= DropdownView { selected_index: rows@[next as int] as nat, ..v });
        self.scroll_to_selection();
    }

    fn go_to_end(&mut self)
        requires
            old(self)@.options.len() < usize::MAX,
        ensures
            final(self)@ == go_to_end_spec(old(self)@),
    {
        let ghost v = self@;
        self.pending_goto_prefix = false;
        let rows = self.visible_indices();
        if rows.len() > 0 {
            self.selected_index = rows[rows.len() - 1];
            assert(self@ =~= DropdownView {
                selected_index: rows@.last() as nat,
                ..DropdownView { pending_prefix: false, ..v }
            });
            self.scroll_to_selection();
        } else {
            self.selected_index = 0;
            self.scroll = 0;
            assert(self@ =~= go_to_end_spec(v));
        }
    }

    fn go_to_start(&mut self)
        ensures
            final(self)@ == go_to_start_spec(old(self)@),
    {
        let ghost v = self@;
        self.pending_goto_prefix = false;
        let rows = self.visible_indices();
        self.selected_index = if rows.len() > 0 { rows[0] } else { 0 };
        self.scroll = 0;
        assert(self@ =~= go_to_start_spec(v));
    }

    fn select_first_visible_option(&mut self)
        ensures
            final(self)@ == select_first_spec(old(self)@),
    {
        let ghost v = self@;
        let rows = self.visible_indices();
        self.selected_index = if rows.len() > 0 { rows[0] } else { 0 };
        self.scroll = 0;
        assert(self@ =~= select_first_spec(v));
    }

    fn keep_selection_after_toggle(
        &mut self,
        current_position: usize,
        was_selected: bool,
        selected_count: usize,
        has_separator: bool,
    )
        requires
            old(self)@.options.len() < usize::MAX,
            visible_spec(old(self)@).len() > 0 ==> current_position < visible_spec(old(self)@).len(),
        ensures
            final(self)@ == keep_after_toggle_spec(
                old(self)@,
                current_position as nat,
                was_selected,
                selected_count as nat,
                has_separator,
            ),
    {
        let ghost v = self@;
        let rows = self.visible_indices();
        if rows.len() == 0 {
            self.selected_index = 0;
            self.scroll = 0;
            assert(self@ =~= keep_after_toggle_spec(
                v,
                current_position as nat,
                was_selected,
                selected_count as nat,
                has_separator,
            ));
            return;
        }
        let before = has_separator && was_selected && current_position as u128 + 1
            == selected_count as u128;
        let after = has_separator && !was_selected && current_position == selected_count;
        let last = rows.len() - 1;
        let next = if before {
            if current_position > 0 { current_position - 1 } else { 0 }
        } else if after {
            if (current_position as u128) + 1 < last as u128 { current_position + 1 } else { last }
        } else {
            if current_position < last { current_position } else { last }
        };
        self.selected_index = rows[next];
        assert(self@ =~= DropdownView { selected_index: rows@[next as int] as nat, ..v });
        self.scroll_to_selection();
    }
}


impl<T> MultiSelectDropdownState<T> {
    /// A multi-select dropdown over `options` with an empty, unfocused filter.
    pub fn new(options: Vec<DropdownOption<T>>) -> (r: Self)
        requires
            options@.len() < usize::MAX,
        ensures
            r.wf(),
            r@.options == options@,
            r@.filter.value == Seq::<char>::empty(),
            !r@.filter.focused,
            r@.filter.cursor == 0,
            r@.selected_index == 0,
            r@.scroll == 0,
            r@.viewport == DEFAULT_VIEWPORT_HEIGHT,
            !r@.pending_prefix,
            !r@.at_least_one,
            !r@.single,
    {
        MultiSelectDropdownState {
            filter: FilterState::default(),
            options,
            selected_index: 0,
            scroll: 0,
            last_viewport_height: DEFAULT_VIEWPORT_HEIGHT,
            pending_goto_prefix: false,
            at_least_one_selection_required: false,
            selection_mode: DropdownSelectionMode::Multiple,
        }
    }

    /// Forbids deselecting the last selected option.
    pub fn require_at_least_one_selection(self) -> (r: Self)
        ensures
            r@ == (DropdownView { at_least_one: true, ..self@ }),
            self.wf() ==> r.wf(),
    {
        let mut s = self;
        s.at_least_one_selection_required = true;
        assert(s@ =~= DropdownView { at_least_one: true, ..self@ });
        s
    }

    /// Whether option `index` may be toggled now.
    pub fn is_option_toggle_enabled(&self, index: usize) -> (r: bool)
        ensures
            r == toggle_enabled_spec(self@, index as nat),
    {
        if !self.at_least_one_selection_required {
            return true;
        }
        if !(index < self.options.len() && self.options[index].selected) {
            return true;
        }
        let mut count: usize = 0;
        let mut k: usize = 0;
        while k < self.options.len()
            invariant
                k <= self.options.len(),
                self@.options == self.options@,
                count == total_selected(self@.options, k as int),
                count <= k,
            decreases self.options.len() - k,
        {
            if self.options[k].selected {
                count = count + 1;
            }
            k = k + 1;
        }
        count > 1
    }

    pub fn is_single_select(&self) -> (r: bool)
        ensures
            r == self@.single,
    {
        self.selection_mode == DropdownSelectionMode::Single
    }

    /// Switches to single selection: toggling picks exactly one option.
    pub fn single_select(self) -> (r: Self)
        ensures
            r@ == (DropdownView { single: true, ..self@ }),
            self.wf() ==> r.wf(),
    {
        let mut s = self;
        s.selection_mode = DropdownSelectionMode::Single;
        assert(s@ =~= DropdownView { single: true, ..self@ });
        s
    }

    /// Puts the cursor on the first selected option, if any.
    pub fn focus_selected(self) -> (r: Self)
        ensures
            r@ == match first_selected(self@.options, 0) {
                Some(k) => DropdownView { selected_index: k, ..self@ },
                None => self@,
            },
            self.wf() ==> r.wf(),
    {
        let mut s = self;
        let mut k: usize = 0;
        while k < s.options.len()
            invariant
                k <= s.options.len(),
                s@ == self@,
                first_selected(self@.options, 0) == first_selected(self@.options, k as int),
            decreases s.options.len() - k,
        {
            if s.options[k].selected {
                s.selected_index = k;
                assert(s@ =~= DropdownView { selected_index: k as nat, ..self@ });
                return s;
            }
            k = k + 1;
        }
        s
    }

    /// Focuses the filter input.
    pub fn focus_filter(self) -> (r: Self)
        ensures
            r@ == (DropdownView {
                filter: FilterView { focused: true, cursor: self@.filter.value.len(), ..self@.filter },
                ..self@
            }),
            self.wf() ==> r.wf(),
    {
        let mut s = self;
        s.filter.focus();
        assert(s@ =~= DropdownView {
            filter: FilterView { focused: true, cursor: self@.filter.value.len(), ..self@.filter },
            ..self@
        });
        s
    }

    pub fn filter_state(&self) -> (r: &FilterState)
        ensures
            r@ == self@.filter,
    {
        &self.filter
    }

    pub fn filter(&self) -> (r: &str)
        ensures
            r@ == self@.filter.value,
    {
        self.filter.value()
    }

    pub fn filter_cursor(&self) -> (r: usize)
        ensures
            r == self@.filter.cursor,
    {
        self.filter.cursor()
    }

    pub fn options(&self) -> (r: &[DropdownOption<T>])
        ensures
            r@ == self@.options,
    {
        self.options.as_slice()
    }

    pub fn selected_index(&self) -> (r: usize)
        ensures
            r == self@.selected_index,
    {
        self.selected_index
    }

    pub fn is_filter_focused(&self) -> (r: bool)
        ensures
            r == self@.filter.focused,
    {
        self.filter.is_focused()
    }

    /// The visible options with their indices, in display order.
    pub fn visible_options(&self) -> (r: Vec<(usize, &DropdownOption<T>)>)
        ensures
            r@.len() == visible_spec(self@).len(),
            forall|j: int|
                0 <= j < r@.len() ==> (#[trigger] r@[j]).0 == visible_spec(self@)[j] && *r@[j].1
                    == self@.options[visible_spec(self@)[j] as int],
    {
        let rows = self.visible_indices();
        let mut out: Vec<(usize, &DropdownOption<T>)> = Vec::new();
        let mut k: usize = 0;
        while k < rows.len()
            invariant
                k <= rows.len(),
                rows@ == visible_spec(self@),
                forall|j: int| 0 <= j < rows@.len() ==> (#[trigger] rows@[j]) < self.options@.len(),
                self@.options == self.options@,
                out@.len() == k,
                forall|j: int|
                    0 <= j < k ==> (#[trigger] out@[j]).0 == rows@[j] && *out@[j].1
                        == self@.options[rows@[j] as int],
            decreases rows.len() - k,
        {
            let i = rows[k];
            out.push((i, &self.options[i]));
            k = k + 1;
        }
        out
    }

    /// Rows the list occupies: options plus separator, or one "no results" row.
    pub fn visible_row_count(&self) -> (r: usize)
        requires
            self.wf(),
        ensures
            r == row_count_spec(self@),
    {
        proof {
            lemma_matching_split(self@.options, self@.filter.value, self@.options.len() as int);
        }
        let rows = self.visible_indices();
        if rows.len() == 0 {
            1
        } else {
            rows.len() + if self.has_separator_exec() { 1 } else { 0 }
        }
    }

    /// The window of rows to draw in a viewport of `height` rows, starting at
    /// `animated_offset` (the position a scroll animation has reached),
    /// clamped to the last full page; remembers the viewport height.
    pub fn visible_range(&mut self, height: usize, animated_offset: usize) -> (r: std::ops::Range<usize>)
        requires
            old(self).wf(),
        ensures
            ({
                let count = row_count_spec(old(self)@) as int;
                if height == 0 {
                    r.start == 0 && r.end == 0 && final(self)@ == old(self)@
                } else {
                    let viewport = if (height as int) < count { height as int } else { count };
                    let max_scroll = count - viewport;
                    let start = if (animated_offset as int) < max_scroll { animated_offset as int } else { max_scroll };
                    &&& final(self)@ == (DropdownView { viewport: viewport as nat, ..old(self)@ })
                    &&& r.start == start
                    &&& r.end == if start + viewport < count { start + viewport } else { count }
                }
            }),
            final(self).wf(),
    {
        let ghost v = self@;
        let row_count = self.visible_row_count();
        if height == 0 {
            return 0..0;
        }
        let viewport = if height < row_count { height } else { row_count };
        self.last_viewport_height = viewport;
        assert(self@ =~= DropdownView { viewport: viewport as nat, ..v });
        let max_scroll = row_count - viewport;
        let start = if animated_offset < max_scroll { animated_offset } else { max_scroll };
        let end = if start + viewport < row_count { start + viewport } else { row_count };
        start..end
    }

    /// The scroll position the list should settle at.
    pub fn scroll_target(&self) -> (r: usize)
        requires
            self.wf(),
        ensures
            r == ({
                let count = row_count_spec(self@) as int;
                let viewport = if (self@.viewport as int) < count { self@.viewport as int } else { count };
                let max_scroll = count - viewport;
                if (self@.scroll as int) < max_scroll { self@.scroll as int } else { max_scroll }
            }),
    {
        let row_count = self.visible_row_count();
        let viewport = if self.last_viewport_height < row_count { self.last_viewport_height } else { row_count };
        let max_scroll = row_count - viewport;
        if self.scroll < max_scroll { self.scroll } else { max_scroll }
    }

    /// The entries to draw for a viewport of `height` rows whose window starts
    /// at `animated_offset`: a "no results" row when nothing matches,
    /// otherwise one entry per row of the window, the separator at the
    /// position after the last selected option.
    pub fn visible_window(&mut self, height: usize, animated_offset: usize) -> (r: Vec<
        DropdownVisibleOption<'_, T>,
    >)
        requires
            old(self).wf(),
        ensures
            final(self).wf(),
            final(self)@.options == old(self)@.options,
            ({
                let v = old(self)@;
                let rows = visible_spec(v);
                let count = row_count_spec(v) as int;
                let sep = has_separator_spec(v);
                let sc = selected_visible(v) as int;
                if rows.len() == 0 {
                    &&& r@.len() == (if height > 0 { 1int } else { 0int })
                    &&& forall|j: int| 0 <= j < r@.len() ==> r@[j] is NoResults
                } else if height == 0 {
                    r@.len() == 0
                } else {
                    let viewport = if (height as int) < count { height as int } else { count };
                    let max_scroll = count - viewport;
                    let start = if (animated_offset as int) < max_scroll { animated_offset as int } else { max_scroll };
                    let end = if start + viewport < count { start + viewport } else { count };
                    &&& r@.len() == end - start
                    &&& forall|j: int| 0 <= j < r@.len() ==> {
                        let pos = start + j;
                        match #[trigger] r@[j] {
                            DropdownVisibleOption::Separator => sep && pos == sc,
                            DropdownVisibleOption::Option { index, option } => {
                                let rp = if sep && pos > sc { pos - 1 } else { pos };
                                &&& !(sep && pos == sc)
                                &&& index == rows[rp]
                                &&& *option == v.options[index as int]
                            },
                            DropdownVisibleOption::NoResults => false,
                        }
                    }
                }
            }),
    {
        let ghost v = self@;
        let rows = self.visible_indices();
        if rows.len() == 0 {
            if height > 0 {
                let mut w: Vec<DropdownVisibleOption<'_, T>> = Vec::new();
                w.push(DropdownVisibleOption::NoResults);
                return w;
            }
            return Vec::new();
        }
        let range = self.visible_range(height, animated_offset);
        let selected_count = self.selected_visible_exec();
        let has_separator = self.has_separator_exec();
        let ghost count = row_count_spec(v) as int;
        proof {
            lemma_matching_split(v.options, v.filter.value, v.options.len() as int);
        }
        let mut window: Vec<DropdownVisibleOption<'_, T>> = Vec::new();
        let mut position = range.start;
        while position < range.end
            invariant
                range.start <= position <= range.end,
                range.end <= count,
                count == rows@.len() + if has_separator { 1int } else { 0int },
                rows@ == visible_spec(v),
                self@.options == v.options,
                self.options@ == v.options,
                has_separator == has_separator_spec(v),
                selected_count == selected_visible(v),
                has_separator ==> 0 < selected_count < rows@.len(),
                forall|j: int| 0 <= j < rows@.len() ==> (#[trigger] rows@[j]) < self.options@.len(),
                window@.len() == position - range.start,
                forall|j: int| 0 <= j < window@.len() ==> {
                    let pos = range.start + j;
                    match #[trigger] window@[j] {
                        DropdownVisibleOption::Separator => has_separator && pos == selected_count,
                        DropdownVisibleOption::Option { index, option } => {
                            let rp = if has_separator && pos > selected_count { pos - 1 } else { pos };
                            &&& !(has_separator && pos == selected_count)
                            &&& index == rows@[rp]
                            &&& *option == v.options[index as int]
                        },
                        DropdownVisibleOption::NoResults => false,
                    }
                },
            decreases range.end - position,
        {
            if has_separator && position == selected_count {
                window.push(DropdownVisibleOption::Separator);
            } else {
                let row_position = if has_separator && position > selected_count {
                    position - 1
                } else {
                    position
                };
                let index = rows[row_position];
                window.push(DropdownVisibleOption::Option { index, option: &self.options[index] });
            }
            position = position + 1;
        }
        window
    }
}

/// The first selected option at or after `k`.
pub open spec fn first_selected<T>(opts: Seq<DropdownOption<T>>, k: int) -> Option<nat>
    decreases opts.len() - k,
{
    if k < 0 || k >= opts.len() {
        None
    } else if opts[k].selected {
        Some(k as nat)
    } else {
        first_selected(opts, k + 1)
    }
}


impl<T> MultiSelectDropdownState<T> {
    fn toggle_selected(&mut self) -> (r: Option<DropdownEvent>)
        requires
            old(self).wf(),
        ensures
            (final(self)@, r) == toggle_spec(old(self)@),
            final(self).wf(),
    {
        let ghost v = self@;
        self.pending_goto_prefix = false;
        let toggled_index = self.selected_index;
        let rows = self.visible_indices();
        let mut k: usize = 0;
        let mut found = false;
        while k < rows.len()
            invariant
                k <= rows.len(),
                found == exists|j: int| 0 <= j < k && rows@[j] == toggled_index,
            decreases rows.len() - k,
        {
            if rows[k] == toggled_index {
                found = true;
            }
            k = k + 1;
        }
        assert(found == rows@.contains(toggled_index));
        if !found || toggled_index >= self.options.len() {
            assert(self@ =~= DropdownView { pending_prefix: false, ..v });
            return None;
        }
        if self.selection_mode == DropdownSelectionMode::Single {
            let n = self.options.len();
            let mut opts = Vec::new();
            std::mem::swap(&mut opts, &mut self.options);
            let mut out: Vec<DropdownOption<T>> = Vec::new();
            let mut i: usize = 0;
            while opts.len() > 0
                invariant
                    i + opts@.len() == n,
                    n == v.options.len(),
                    opts@ == v.options.skip(i as int),
                    out@ =~= Seq::new(i as nat, |j: int| set_selected_flag(v.options[j], j == toggled_index as int)),
                decreases opts.len(),
            {
                let ghost before = opts@;
                let mut o = opts.remove(0);
                assert(o == v.options[i as int]);
                assert(opts@ =~= v.options.skip(i + 1));
                o.selected = i == toggled_index;
                out.push(o);
                i = i + 1;
            }
            self.options = out;
            assert(self@ =~= toggle_spec(v).0);
            return Some(DropdownEvent::Toggled(toggled_index));
        }
        if !self.is_option_toggle_enabled(toggled_index) {
            assert(self@ =~= DropdownView { pending_prefix: false, ..v });
            return None;
        }
        let current_position = Self::position_exec(&rows, self.selected_index);
        let was_selected = self.options[toggled_index].selected;
        let selected_count = self.selected_visible_exec();
        let has_separator = selected_count > 0 && selected_count < rows.len();
        let mut o = self.options.remove(toggled_index);
        o.selected = !was_selected;
        self.options.insert(toggled_index, o);
        let ghost v1 = DropdownView {
            options: v.options.update(
                toggled_index as int,
                set_selected_flag(v.options[toggled_index as int], !was_selected),
            ),
            ..DropdownView { pending_prefix: false, ..v }
        };
        assert(self@ =~= v1);
        proof {
            let n = v.options.len() as int;
            lemma_matching_labels(v.options, v1.options, v.filter.value, n);
            lemma_matching_split(v.options, v.filter.value, n);
            lemma_matching_split(v1.options, v.filter.value, n);
            lemma_position_bound(rows@, toggled_index as nat, 0);
        }
        self.keep_selection_after_toggle(current_position, was_selected, selected_count, has_separator);
        Some(DropdownEvent::Toggled(toggled_index))
    }

    /// Applies one dropdown action; reports toggles and requests to close.
    pub fn dispatch(&mut self, action: DropdownAction) -> (r: Option<DropdownEvent>)
        requires
            old(self).wf(),
            old(self)@.filter.value.len() < isize::MAX,
        ensures
            (final(self)@, r) == dropdown_step(old(self)@, action),
            final(self).wf(),
    {
        let ghost v = self@;
        match action {
            DropdownAction::Filter(action) => {
                self.pending_goto_prefix = false;
                if action == FilterAction::Exit || action == FilterAction::Submit || action
                    == FilterAction::Quit {
                    self.filter.clear_focus();
                    assert(self@ =~= dropdown_step(v, DropdownAction::Filter(action)).0);
                    return None;
                }
                let event = self.filter.dispatch(action);
                if event == Some(FilterEvent::Changed) {
                    self.select_first_visible_option();
                }
                assert(self@ =~= dropdown_step(v, DropdownAction::Filter(action)).0);
                None
            },
            DropdownAction::FocusFilter => {
                self.pending_goto_prefix = false;
                self.filter.focus();
                assert(self@ =~= dropdown_step(v, action).0);
                None
            },
            DropdownAction::ClearFilter => {
                self.pending_goto_prefix = false;
                self.filter.clear();
                assert(self@ =~= dropdown_step(v, action).0);
                None
            },
            DropdownAction::MoveUp => {
                if self.filter.is_focused() {
                    return None;
                }
                self.pending_goto_prefix = false;
                self.move_selection(-1);
                None
            },
            DropdownAction::MoveDown => {
                if self.filter.is_focused() {
                    return None;
                }
                self.pending_goto_prefix = false;
                self.move_selection(1);
                None
            },
            DropdownAction::HalfPageUp => {
                if self.filter.is_focused() {
                    return None;
                }
                self.pending_goto_prefix = false;
                self.move_selection(-DROPDOWN_HALF_PAGE_STEP);
                None
            },
            DropdownAction::HalfPageDown => {
                if self.filter.is_focused() {
                    return None;
                }
                self.pending_goto_prefix = false;
                self.move_selection(DROPDOWN_HALF_PAGE_STEP);
                None
            },
            DropdownAction::GoToEnd => {
                if self.filter.is_focused() {
                    return None;
                }
                self.go_to_end();
                None
            },
            DropdownAction::GoToStart => {
                if self.filter.is_focused() {
                    return None;
                }
                self.go_to_start();
                None
            },
            DropdownAction::GotoPrefix => {
                if self.filter.is_focused() {
                    return None;
                }
                if self.pending_goto_prefix {
                    self.go_to_start();
                } else {
                    self.pending_goto_prefix = true;
                    assert(self@ =~= dropdown_step(v, action).0);
                }
                None
            },
            DropdownAction::ToggleSelected => {
                if self.filter.is_focused() {
                    return None;
                }
                self.toggle_selected()
            },
            DropdownAction::Close => {
                self.pending_goto_prefix = false;
                if self.filter.is_focused() || !self.filter.value().is_empty() {
                    self.filter.clear();
                    assert(self@ =~= dropdown_step(v, action).0);
                    None
                } else {
                    assert(self@ =~= dropdown_step(v, action).0);
                    Some(DropdownEvent::Closed)
                }
            },
            DropdownAction::NoOp => {
                self.pending_goto_prefix = false;
                assert(self@ =~= dropdown_step(v, action).0);
                None
            },
        }
    }
}


/// Counting the selected options after one option's flag changes.
proof fn lemma_total_selected_update<T>(opts: Seq<DropdownOption<T>>, i: int, b: bool, k: int)
    requires
        0 <= i < opts.len(),
        0 <= k <= opts.len(),
    ensures
        total_selected(opts.update(i, set_selected_flag(opts[i], b)), k) + (if i < k && opts[i].selected { 1int } else { 0 })
            == total_selected(opts, k) + (if i < k && b { 1int } else { 0 }),
    decreases k,
{
    if k > 0 {
        lemma_total_selected_update(opts, i, b, k - 1);
    }
}

/// In single-select mode a toggle leaves exactly the toggled option selected.
pub proof fn lemma_single_select_toggle<T>(v: DropdownView<T>)
    requires
        v.single,
        toggle_spec(v).1 is Some,
    ensures
        v.selected_index < v.options.len(),
        toggle_spec(v).0.options.len() == v.options.len(),
        forall|j: int| 0 <= j < v.options.len() ==> (#[trigger] toggle_spec(v).0.options[j]).selected == (j == v.selected_index),
{
}

/// When at least one selection is required, a toggle never leaves the
/// dropdown without a selected option (if it had one).
pub proof fn lemma_toggle_keeps_a_selection<T>(v: DropdownView<T>)
    requires
        v.at_least_one,
        total_selected(v.options, v.options.len() as int) >= 1,
    ensures
        total_selected(toggle_spec(v).0.options, toggle_spec(v).0.options.len() as int) >= 1,
{
    let i = v.selected_index;
    let rows = visible_spec(v);
    if rows.contains(i as usize) && i < v.options.len() {
        if v.single {
            let opts = toggle_spec(v).0.options;
            lemma_total_at_least(opts, i as int, opts.len() as int);
        } else if toggle_enabled_spec(v, i) {
            let was = v.options[i as int].selected;
            lemma_total_selected_update(v.options, i as int, !was, v.options.len() as int);
        }
    }
}

/// A selected option among the first `k` counts.
proof fn lemma_total_at_least<T>(opts: Seq<DropdownOption<T>>, i: int, k: int)
    requires
        0 <= i < k <= opts.len(),
        opts[i].selected,
    ensures
        total_selected(opts, k) >= 1,
    decreases k,
{
    if i < k - 1 {
        lemma_total_at_least(opts, i, k - 1);
    }
}
} // verus!
