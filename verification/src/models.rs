//! The Jira data the client works with: issues, boards, sprints and the
//! timeline, with the small computations the views make on them.
use vstd::prelude::*;
use crate::collections::{id_views, FieldMap};
use crate::text::{
    chars_of, is_ascii_digit, split_whitespace, string_from_chars, trim,
    trim_chars, upper_chars, upper_seq, views_of, words,
};

verus! {

#[derive(Debug, Clone, PartialEq, Eq)]
pub struct IssueSummary {
    pub key: String,
    pub summary: String,
    pub status: String,
    pub issue_type: String,
    pub parent_key: Option<String>,
    pub has_children: bool,
    pub field_values: FieldMap,
}

#[derive(Debug, Clone, PartialEq, Eq)]
pub struct FieldSummary {
    pub id: String,
    pub name: String,
}

#[derive(Debug, Clone, PartialEq, Eq)]
pub struct ProjectSummary {
    pub key: String,
    pub name: String,
}

#[derive(Debug, Clone, PartialEq, Eq)]
pub struct UserSummary {
    pub account_id: String,
    pub display_name: String,
}

/// One request to Jira as the command log shows it.
#[derive(Debug, Clone, PartialEq, Eq)]
pub struct CommandLogEntry {
    pub timestamp: String,
    pub method: &'static str,
    pub path: String,
    pub status: String,
    pub duration_ms: u128,
}

#[derive(Debug, Clone, PartialEq, Eq)]
pub struct JiraError(pub String);

#[derive(Debug, Clone, PartialEq, Eq)]
pub struct BoardData {
    pub id: u64,
    pub name: String,
    pub columns: Vec<BoardColumnSummary>,
    pub swimlanes: Vec<BoardSwimlaneSummary>,
    pub issues: Vec<IssueSummary>,
    /// The board's active sprint, when the board is sprint-backed and the
    /// payload carries one; `None` is shown as "No active sprint".
    pub sprint: Option<SprintSummary>,
}

#[derive(Debug, Clone, PartialEq, Eq)]
pub struct SprintSummary {
    pub name: String,
    pub goal: Option<String>,
    pub days_remaining: Option<i64>,
    pub start_date: Option<String>,
    pub end_date: Option<String>,
}

#[derive(Debug, Clone, PartialEq, Eq)]
pub struct BoardColumnSummary {
    pub name: String,
    pub statuses: Vec<String>,
    /// Configured WIP maximum for the column, if any; shown as `count/max`.
    pub max: Option<u64>,
}

#[derive(Debug, Clone, PartialEq, Eq)]
pub struct BoardSwimlaneSummary {
    pub id: Option<String>,
    pub name: String,
    pub issue_keys: Vec<String>,
}

/// The characters of a non-negative number in decimal.
pub open spec fn decimal(n: nat) -> Seq<char>
    decreases n,
{
    if n < 10 {
        seq![(('0' as u32) + n) as char]
    } else {
        decimal(n / 10) + seq![(('0' as u32) + n % 10) as char]
    }
}

/// The decimal digits of `n`.
pub fn decimal_chars(n: u64) -> (r: Vec<char>)
    ensures
        r@ == decimal(n as nat),
    decreases n,
{
    let digit = char_of_digit(n % 10);
    if n < 10 {
        vec![digit]
    } else {
        let mut out = decimal_chars(n / 10);
        out.push(digit);
        out
    }
}

fn char_of_digit(d: u64) -> (c: char)
    requires
        d < 10,
    ensures
        c == (('0' as u32) + d) as char,
{
    if d == 0 { '0' }
    else if d == 1 { '1' }
    else if d == 2 { '2' }
    else if d == 3 { '3' }
    else if d == 4 { '4' }
    else if d == 5 { '5' }
    else if d == 6 { '6' }
    else if d == 7 { '7' }
    else if d == 8 { '8' }
    else { '9' }
}

/// What the sprint header says of `days` days remaining.
pub open spec fn days_left_text(days: int) -> Seq<char> {
    if days < 0 {
        "Sprint ended"@
    } else if days == 0 {
        "Ends today"@
    } else if days == 1 {
        "1 day left"@
    } else {
        decimal(days as nat) + " days left"@
    }
}

impl SprintSummary {
    /// Human-readable time remaining (e.g. `4 days left`), or `None` when the
    /// sprint carries no day count.
    pub fn days_left_label(&self) -> (label: Option<String>)
        ensures
            match self.days_remaining {
                Some(days) => label is Some && label.unwrap()@ == days_left_text(days as int),
                None => label is None,
            },
    {
        match self.days_remaining {
            None => None,
            Some(days) => {
                if days < 0 {
                    Some("Sprint ended".to_owned())
                } else if days == 0 {
                    Some("Ends today".to_owned())
                } else if days == 1 {
                    Some("1 day left".to_owned())
                } else {
                    let mut text = decimal_chars(days as u64);
                    let mut tail = chars_of(" days left");
                    text.append(&mut tail);
                    Some(string_from_chars(&text))
                }
            },
        }
    }
}

/// The statuses of `statuses`, each once, in the order they first occur.
pub open spec fn distinct_in_order(statuses: Seq<Seq<char>>) -> Seq<Seq<char>>
    decreases statuses.len(),
{
    if statuses.len() == 0 {
        Seq::empty()
    } else {
        let before = distinct_in_order(statuses.drop_last());
        if before.contains(statuses.last()) {
            before
        } else {
            before.push(statuses.last())
        }
    }
}

pub open spec fn issue_statuses(issues: Seq<IssueSummary>) -> Seq<Seq<char>> {
    issues.map_values(|issue: IssueSummary| issue.status@)
}

pub open spec fn issue_keys(issues: Seq<IssueSummary>) -> Seq<Seq<char>> {
    issues.map_values(|issue: IssueSummary| issue.key@)
}

pub open spec fn column_names(columns: Seq<BoardColumnSummary>) -> Seq<Seq<char>> {
    columns.map_values(|column: BoardColumnSummary| column.name@)
}

/// The columns a board built from issues alone gets: one per status in the
/// order the statuses first occur, each holding just that status; a single
/// empty "Issues" column when there are no issues.
pub open spec fn status_columns_ok(columns: Seq<BoardColumnSummary>, issues: Seq<IssueSummary>) -> bool {
    let statuses = distinct_in_order(issue_statuses(issues));
    if statuses.len() == 0 {
        &&& columns.len() == 1
        &&& columns[0].name@ == "Issues"@
        &&& columns[0].statuses@.len() == 0
        &&& columns[0].max is None
    } else {
        &&& column_names(columns) == statuses
        &&& forall|i: int| 0 <= i < columns.len() ==> {
            &&& (#[trigger] columns[i]).statuses@.len() == 1
            &&& columns[i].statuses@[0]@ == statuses[i]
            &&& columns[i].max is None
        }
    }
}

/// A board for a project without a configured board: a column per status in
/// first-seen order and one swimlane holding every issue.
pub open spec fn from_issues_ok(board: BoardData, issues: Seq<IssueSummary>) -> bool {
    &&& board.id == 0
    &&& board.name@ == "Project board"@
    &&& status_columns_ok(board.columns@, issues)
    &&& board.swimlanes@.len() == 1
    &&& board.swimlanes@[0].id is None
    &&& board.swimlanes@[0].name@ == "Issues"@
    &&& id_views(board.swimlanes@[0].issue_keys@) == issue_keys(issues)
    &&& board.issues@ == issues
    &&& board.sprint is None
}

fn contains_string(v: &Vec<String>, s: &String) -> (r: bool)
    ensures
        r == id_views(v@).contains(s@),
{
    let mut i: usize = 0;
    while i < v.len()
        invariant
            i <= v.len(),
            forall|j: int| 0 <= j < i ==> v@[j]@ != s@,
        decreases v.len() - i,
    {
        if crate::text::str_eq(v[i].as_str(), s.as_str()) {
            assert(id_views(v@)[i as int] == s@);
            return true;
        }
        i = i + 1;
    }
    proof {
        if id_views(v@).contains(s@) {
            let j = choose|j: int| 0 <= j < v@.len() && #[trigger] id_views(v@)[j] == s@;
            assert(v@[j]@ == s@);
        }
    }
    false
}

impl BoardData {
    /// A board for a project without a configured board: a column per status
    /// in first-seen order and one swimlane holding every issue.
    pub fn from_issues(issues: Vec<IssueSummary>) -> (board: Self)
        ensures
            from_issues_ok(board, issues@),
    {
        let mut columns: Vec<BoardColumnSummary> = Vec::new();
        let mut seen: Vec<String> = Vec::new();
        let mut keys: Vec<String> = Vec::new();
        let mut i: usize = 0;
        while i < issues.len()
            invariant
                i <= issues.len(),
                id_views(seen@) == distinct_in_order(issue_statuses(issues@.take(i as int))),
                column_names(columns@) == id_views(seen@),
                forall|j: int| 0 <= j < columns.len() ==> {
                    &&& (#[trigger] columns@[j]).statuses@.len() == 1
                    &&& columns@[j].statuses@[0]@ == seen@[j]@
                    &&& columns@[j].max is None
                },
                id_views(keys@) == issue_keys(issues@.take(i as int)),
            decreases issues.len() - i,
        {
            let status = &issues[i].status;
            assert(issue_statuses(issues@.take(i + 1)).drop_last() =~= issue_statuses(issues@.take(i as int)));
            assert(issue_keys(issues@.take(i + 1)) =~= issue_keys(issues@.take(i as int)).push(issues@[i as int].key@));
            if !contains_string(&seen, status) {
                let ghost old_seen = seen@;
                let ghost old_columns = columns@;
                seen.push(status.clone());
                columns.push(BoardColumnSummary { name: status.clone(), statuses: vec![status.clone()], max: None });
                assert(id_views(seen@) =~= id_views(old_seen).push(status@));
                assert(column_names(columns@) =~= column_names(old_columns).push(status@));
            }
            keys.push(issues[i].key.clone());
            i = i + 1;
        }
        assert(issues@.take(issues.len() as int) =~= issues@);
        if columns.len() == 0 {
            columns.push(BoardColumnSummary { name: "Issues".to_owned(), statuses: Vec::new(), max: None });
        }
        let swimlane = BoardSwimlaneSummary { id: None, name: "Issues".to_owned(), issue_keys: keys };
        BoardData {
            id: 0,
            name: "Project board".to_owned(),
            columns,
            swimlanes: vec![swimlane],
            issues,
            sprint: None,
        }
    }
}

/// The data behind the Timeline tab: the project's epics, the board's sprints
/// and each epic's child issues bucketed by the sprints they sit in.
#[derive(Debug, Clone, PartialEq, Eq)]
pub struct TimelineData {
    pub epics: Vec<TimelineEpic>,
    pub sprints: Vec<TimelineSprint>,
}

#[derive(Debug, Clone, PartialEq, Eq)]
pub struct TimelineEpic {
    pub key: String,
    pub summary: String,
    pub status: String,
    pub done: bool,
    pub stats: TimelineEpicStats,
    pub children: Vec<TimelineIssue>,
}

/// Whether some child of the epic sits in sprint `id`.
pub open spec fn touches_sprint(children: Seq<TimelineIssue>, id: i64) -> bool {
    exists|k: int| 0 <= k < children.len() && (#[trigger] children[k]).sprint_ids@.contains(id)
}

/// Strictly increasing, so each value occurs once.
pub open spec fn strictly_increasing(s: Seq<i64>) -> bool {
    forall|a: int, b: int| 0 <= a < b < s.len() ==> s[a] < s[b]
}

/// `x` put into the sorted sequence `s` at the first position not below it.
fn insert_sorted(v: &mut Vec<i64>, x: i64)
    requires
        strictly_increasing(old(v)@),
    ensures
        strictly_increasing(final(v)@),
        forall|y: i64| #![trigger final(v)@.contains(y)] #![trigger old(v)@.contains(y)] final(v)@.contains(y) <==> (old(v)@.contains(y) || y == x),
{
    let mut p: usize = 0;
    while p < v.len() && v[p] < x
        invariant
            p <= v.len(),
            forall|a: int| 0 <= a < p ==> v@[a] < x,
        decreases v.len() - p,
    {
        p = p + 1;
    }
    if p < v.len() && v[p] == x {
        assert(v@[p as int] == x);
        assert(v@.contains(x));
        return;
    }
    let ghost before = v@;
    assert(before == old(v)@);
    v.insert(p, x);
    assert forall|y: i64| #![trigger v@.contains(y)] #![trigger before.contains(y)] v@.contains(y) <==> (before.contains(y) || y == x) by {
        if v@.contains(y) {
            let k = choose|k: int| 0 <= k < v@.len() && v@[k] == y;
            if k < p {
                assert(before[k] == y);
            } else if k > p {
                assert(before[k - 1] == y);
            }
        }
        if before.contains(y) {
            let k = choose|k: int| 0 <= k < before.len() && before[k] == y;
            if k < p {
                assert(v@[k] == y);
            } else {
                assert(v@[k + 1] == y);
            }
        }
        if y == x {
            assert(v@[p as int] == x);
        }
    }
}

impl TimelineEpic {
    /// The distinct sprint ids this epic touches through its children, in
    /// increasing order; they decide the columns the epic's bar spans.
    pub fn sprint_ids(&self) -> (ids: Vec<i64>)
        ensures
            strictly_increasing(ids@),
            forall|id: i64| ids@.contains(id) <==> touches_sprint(self.children@, id),
    {
        let mut ids: Vec<i64> = Vec::new();
        let mut i: usize = 0;
        while i < self.children.len()
            invariant
                i <= self.children.len(),
                strictly_increasing(ids@),
                forall|id: i64| ids@.contains(id) <==> touches_sprint(self.children@.take(i as int), id),
            decreases self.children.len() - i,
        {
            let child = &self.children[i];
            let mut j: usize = 0;
            while j < child.sprint_ids.len()
                invariant
                    i < self.children.len(),
                    child == self.children@[i as int],
                    j <= child.sprint_ids.len(),
                    strictly_increasing(ids@),
                    forall|id: i64| ids@.contains(id) <==> (touches_sprint(self.children@.take(i as int), id)
                        || child.sprint_ids@.take(j as int).contains(id)),
                decreases child.sprint_ids.len() - j,
            {
                let ghost before = ids@;
                insert_sorted(&mut ids, child.sprint_ids[j]);
                let ghost longer = child.sprint_ids@.take(j + 1);
                let ghost shorter = child.sprint_ids@.take(j as int);
                assert(longer =~= shorter.push(child.sprint_ids@[j as int]));
                assert forall|id: i64| longer.contains(id) <==> (shorter.contains(id) || id
                    == child.sprint_ids@[j as int]) by {
                    crate::collections::lemma_contains_push(shorter, child.sprint_ids@[j as int], id);
                }
                j = j + 1;
            }
            assert(child.sprint_ids@.take(j as int) =~= child.sprint_ids@);
            let ghost longer = self.children@.take(i + 1);
            let ghost shorter = self.children@.take(i as int);
            assert(longer =~= shorter.push(*child));
            assert forall|id: i64| touches_sprint(longer, id) <==> (touches_sprint(shorter, id)
                || child.sprint_ids@.contains(id)) by {
                if touches_sprint(longer, id) {
                    let k = choose|k: int| 0 <= k < i + 1 && (#[trigger] longer[k]).sprint_ids@.contains(id);
                    if k < i {
                        assert(shorter[k] == longer[k]);
                    }
                }
                if touches_sprint(shorter, id) {
                    let k = choose|k: int| 0 <= k < i && (#[trigger] shorter[k]).sprint_ids@.contains(id);
                    assert(longer[k] == shorter[k]);
                }
                if child.sprint_ids@.contains(id) {
                    assert(longer[i as int] == *child);
                }
            }
            i = i + 1;
        }
        assert(self.children@.take(i as int) =~= self.children@);
        ids
    }
}

/// Child-issue counts rolled up for an epic's progress bar.
#[derive(Debug, Clone, Copy, PartialEq, Eq, Structural)]
pub struct TimelineEpicStats {
    pub to_do: u32,
    pub in_progress: u32,
    pub done: u32,
}

impl TimelineEpicStats {
    pub open spec fn total_spec(&self) -> int {
        self.to_do + self.in_progress + self.done
    }

    /// All child issues, whatever their state.
    pub fn total(&self) -> (n: u32)
        requires
            self.total_spec() <= u32::MAX,
        ensures
            n == self.total_spec(),
    {
        self.to_do + self.in_progress + self.done
    }

    pub open spec fn percent_spec(&self) -> int {
        if self.total_spec() == 0 { 0 } else { self.done * 100 / self.total_spec() }
    }

    /// Percentage of child issues that are done, rounded down; 0 when the
    /// epic has no children, so the bar stays empty.
    pub fn percent_done(&self) -> (p: u8)
        requires
            self.total_spec() <= u32::MAX,
        ensures
            p == self.percent_spec(),
            p <= 100,
    {
        let total = self.total();
        if total == 0 {
            return 0;
        }
        let done = self.done as u64;
        assert(done * 100 <= total as u64 * 100) by (nonlinear_arith)
            requires done <= total;
        assert((done * 100) as int / (total as int) <= 100) by (nonlinear_arith)
            requires done * 100 <= total * 100, total > 0;
        ((done * 100) / (total as u64)) as u8
    }
}

#[derive(Debug, Clone, PartialEq, Eq)]
pub struct TimelineIssue {
    pub key: String,
    pub summary: String,
    pub status: String,
    pub issue_type: String,
    pub done: bool,
    pub sprint_ids: Vec<i64>,
}

#[derive(Debug, Clone, Copy, PartialEq, Eq, Structural)]
pub enum SprintState {
    Active,
    Closed,
    Future,
}

#[derive(Debug, Clone, PartialEq, Eq)]
pub struct TimelineSprint {
    pub id: i64,
    pub name: String,
    pub state: SprintState,
    /// Sprint start as days since 1970-01-01 when the sprint is dated;
    /// undated buckets are left off the timeline axis.
    pub start_day: Option<i64>,
    pub end_day: Option<i64>,
}

impl TimelineSprint {
    /// Compact label for a sprint pill on the timeline axis.
    pub fn short_label(&self) -> (label: String)
        ensures
            label@ == sprint_label(self.name@),
    {
        sprint_short_label(self.name.as_str())
    }
}

/// The longest run of ASCII digits that ends `s`.
pub open spec fn digit_suffix(s: Seq<char>) -> Seq<char>
    decreases s.len(),
{
    if s.len() > 0 && is_ascii_digit(s.last()) {
        digit_suffix(s.drop_last()).push(s.last())
    } else {
        Seq::empty()
    }
}

/// The last maximal run of ASCII digits in `s`, if it has a digit.
pub open spec fn last_digit_run(s: Seq<char>) -> Option<Seq<char>>
    decreases s.len(),
{
    if s.len() == 0 {
        None
    } else if is_ascii_digit(s.last()) {
        Some(digit_suffix(s))
    } else {
        last_digit_run(s.drop_last())
    }
}

/// The first character of each word.
pub open spec fn initials_of(words: Seq<Seq<char>>) -> Seq<char> {
    words.map_values(|w: Seq<char>| w[0])
}

/// The pill label of a sprint name: `S` and the last number in the trimmed
/// name when it has digits; else the upper-cased initials when it has three
/// or more words; else its first three characters upper-cased.
pub open spec fn sprint_label(name: Seq<char>) -> Seq<char> {
    let t = trim(name);
    match last_digit_run(t) {
        Some(number) => seq!['S'] + number,
        None => if words(t).len() >= 3 {
            upper_seq(initials_of(words(t)))
        } else {
            upper_seq(t.take(if t.len() < 3 { t.len() as int } else { 3 }))
        },
    }
}

fn last_digit_run_chars(v: &Vec<char>) -> (r: Option<Vec<char>>)
    ensures
        match r {
            Some(run) => last_digit_run(v@) == Some(run@),
            None => last_digit_run(v@) is None,
        },
{
    let mut end = v.len();
    assert(v@.take(end as int) =~= v@);
    while end > 0 && !('0' <= v[end - 1] && v[end - 1] <= '9')
        invariant
            end <= v.len(),
            last_digit_run(v@) == last_digit_run(v@.take(end as int)),
        decreases end,
    {
        assert(v@.take(end as int).drop_last() =~= v@.take(end - 1));
        end = end - 1;
    }
    if end == 0 {
        return None;
    }
    let mut start = end;
    while start > 0 && '0' <= v[start - 1] && v[start - 1] <= '9'
        invariant
            start <= end <= v.len(),
            end > 0,
            is_ascii_digit(v@[end - 1]),
            digit_suffix(v@.take(end as int)) == digit_suffix(v@.take(start as int)) + v@.subrange(start as int, end as int),
        decreases start,
    {
        assert(v@.take(start as int).drop_last() =~= v@.take(start - 1));
        assert(v@.subrange(start - 1, end as int) =~= seq![v@[start - 1]] + v@.subrange(start as int, end as int));
        assert(digit_suffix(v@.take(start as int)) == digit_suffix(v@.take(start - 1)).push(v@[start - 1]));
        assert(digit_suffix(v@.take(start - 1)).push(v@[start - 1]) + v@.subrange(start as int, end as int)
            =~= digit_suffix(v@.take(start - 1)) + v@.subrange(start - 1, end as int));
        start = start - 1;
    }
    assert(digit_suffix(v@.take(start as int)) =~= Seq::<char>::empty());
    let mut run: Vec<char> = Vec::new();
    let mut i = start;
    while i < end
        invariant
            start <= i <= end <= v.len(),
            run@ == v@.subrange(start as int, i as int),
        decreases end - i,
    {
        run.push(v[i]);
        i = i + 1;
        assert(run@ =~= v@.subrange(start as int, i as int));
    }
    assert(v@.take(end as int).last() == v@[end - 1]);
    assert(digit_suffix(v@.take(end as int)) =~= v@.subrange(start as int, end as int));
    Some(run)
}

/// Abbreviates a sprint name to a compact pill label: `S` and the trailing
/// sprint number (`DICE Sprint 190` -> `S190`); else the upper-cased initials
/// of three or more words (`ready to pick up` -> `RTPU`); else the first three
/// characters upper-cased (`CDS backlog` -> `CDS`, `Archive` -> `ARC`).
pub fn sprint_short_label(name: &str) -> (label: String)
    ensures
        label@ == sprint_label(name@),
{
    let all = chars_of(name);
    let t = trim_chars(&all);
    match last_digit_run_chars(&t) {
        Some(number) => {
            let mut out: Vec<char> = vec!['S'];
            let mut digits = number;
            out.append(&mut digits);
            return string_from_chars(&out);
        },
        None => {},
    }
    let word_list = split_whitespace(&t);
    if word_list.len() >= 3 {
        let mut initials: Vec<char> = Vec::new();
        let mut k: usize = 0;
        while k < word_list.len()
            invariant
                k <= word_list.len(),
                views_of(word_list@) == words(t@),
                forall|m: int| 0 <= m < word_list@.len() ==> #[trigger] word_list@[m]@.len() > 0,
                initials@ == initials_of(views_of(word_list@).take(k as int)),
            decreases word_list.len() - k,
        {
            initials.push(word_list[k][0]);
            k = k + 1;
            assert(initials@ =~= initials_of(views_of(word_list@).take(k as int)));
        }
        assert(views_of(word_list@).take(k as int) =~= views_of(word_list@));
        string_from_chars(&upper_chars(&initials))
    } else {
        let n: usize = if t.len() < 3 { t.len() } else { 3 };
        let mut head: Vec<char> = Vec::new();
        let mut k: usize = 0;
        while k < n
            invariant
                k <= n <= t.len(),
                head@ == t@.take(k as int),
            decreases n - k,
        {
            head.push(t[k]);
            k = k + 1;
            assert(head@ =~= t@.take(k as int));
        }
        string_from_chars(&upper_chars(&head))
    }
}

} // verus!
