//! How loaded Jira fields reach the views: the list's field values merged
//! into the board's issues, and the custom fields offered in the column
//! picker, filtered, named and ordered.
use vstd::prelude::*;
use crate::board::issue_index;
use crate::collections::{id_views, IdSet};
use crate::models::{BoardData, FieldSummary, IssueSummary};
use crate::issue_columns::{column_views, field_column, ColumnView, JiraIssueColumn};
use crate::text::{chars_lex_lt, chars_of, lex_lt, str_eq, str_lowercase, to_lowercase_str};
use vstd::string::StringExecFns;

verus! {

/// Fields whose value from the issue list replaces the board's own.
pub open spec fn list_field_wins(k: Seq<char>) -> bool {
    k == "assignee"@ || k == "reporter"@
}

/// A board issue's fields after the list's copy of the issue is merged in:
/// the list's assignee and reporter win, its other fields only fill gaps.
pub open spec fn merged_fields(
    board: Map<Seq<char>, Seq<char>>,
    list: Map<Seq<char>, Seq<char>>,
) -> Map<Seq<char>, Seq<char>> {
    Map::new(
        |k: Seq<char>| board.contains_key(k) || list.contains_key(k),
        |k: Seq<char>|
            if list.contains_key(k) && (list_field_wins(k) || !board.contains_key(k)) {
                list[k]
            } else {
                board[k]
            },
    )
}

/// The merge restricted to the list fields named in `done`.
pub open spec fn merged_over(
    board: Map<Seq<char>, Seq<char>>,
    list: Map<Seq<char>, Seq<char>>,
    done: Seq<Seq<char>>,
) -> Map<Seq<char>, Seq<char>> {
    Map::new(
        |k: Seq<char>| board.contains_key(k) || (list.contains_key(k) && done.contains(k)),
        |k: Seq<char>|
            if list.contains_key(k) && done.contains(k) && (list_field_wins(k)
                || !board.contains_key(k)) {
                list[k]
            } else {
                board[k]
            },
    )
}

fn position_of_key(issues: &[IssueSummary], key: &str) -> (r: Option<usize>)
    ensures
        match r {
            Some(j) => issue_index(issues@, key@) == Some(j as int) && j < issues@.len(),
            None => issue_index(issues@, key@) is None,
        },
{
    let mut i: usize = 0;
    while i < issues.len()
        invariant
            i <= issues@.len(),
            issue_index(issues@, key@) == crate::board::issue_index_from(issues@, key@, i as int),
        decreases issues@.len() - i,
    {
        if str_eq(issues[i].key.as_str(), key) {
            return Some(i);
        }
        i = i + 1;
    }
    None
}

/// The fields a board issue ends with: merged with its first namesake in the
/// list, unchanged without one.
pub open spec fn board_issue_fields_after(
    issue: IssueSummary,
    list_issues: Seq<IssueSummary>,
) -> Map<Seq<char>, Seq<char>> {
    match issue_index(list_issues, issue.key@) {
        Some(j) => merged_fields(issue.field_values@, list_issues[j].field_values@),
        None => issue.field_values@,
    }
}

/// Merges into each board issue the field values of the list issue with the
/// same key: the list's assignee and reporter replace the board's, other
/// fields are added only where the board has none.
pub fn merge_board_issue_fields(board: &mut BoardData, list_issues: &[IssueSummary])
    ensures
        final(board).id == old(board).id,
        final(board).name == old(board).name,
        final(board).columns == old(board).columns,
        final(board).swimlanes == old(board).swimlanes,
        final(board).sprint == old(board).sprint,
        final(board).issues.len() == old(board).issues.len(),
        forall|i: int|
            #![trigger final(board).issues@[i]]
            0 <= i < old(board).issues.len() ==> {
                let before = old(board).issues@[i];
                let after = final(board).issues@[i];
                &&& after.key == before.key
                &&& after.summary == before.summary
                &&& after.status == before.status
                &&& after.issue_type == before.issue_type
                &&& after.parent_key == before.parent_key
                &&& after.has_children == before.has_children
                &&& after.field_values@ == board_issue_fields_after(before, list_issues@)
            },
{
    let ghost original = board.issues@;
    let mut i: usize = 0;
    while i < board.issues.len()
        invariant
            i <= board.issues.len(),
            board.issues.len() == original.len(),
            board.id == old(board).id,
            board.name == old(board).name,
            board.columns == old(board).columns,
            board.swimlanes == old(board).swimlanes,
            board.sprint == old(board).sprint,
            original == old(board).issues@,
            forall|k: int|
                #![trigger board.issues@[k]]
                i <= k < original.len() ==> board.issues@[k] == original[k],
            forall|k: int|
                #![trigger board.issues@[k]]
                0 <= k < i ==> {
                    let before = original[k];
                    let after = board.issues@[k];
                    &&& after.key == before.key
                    &&& after.summary == before.summary
                    &&& after.status == before.status
                    &&& after.issue_type == before.issue_type
                    &&& after.parent_key == before.parent_key
                    &&& after.has_children == before.has_children
                    &&& after.field_values@ == board_issue_fields_after(before, list_issues@)
                },
        decreases original.len() - i,
    {
        let found = position_of_key(list_issues, board.issues[i].key.as_str());
        if let Some(j) = found {
            let list_fields = &list_issues[j].field_values;
            let keys = list_fields.keys();
            let ghost b0 = board.issues@[i as int].field_values@;
            let ghost l = list_fields@;
            let mut n: usize = 0;
            while n < keys.len()
                invariant
                    i < board.issues.len(),
                    board.issues.len() == original.len(),
                    board.id == old(board).id,
                    board.name == old(board).name,
                    board.columns == old(board).columns,
                    board.swimlanes == old(board).swimlanes,
                    board.sprint == old(board).sprint,
                    n <= keys.len(),
                    l == list_fields@,
                    forall|k: Seq<char>| #[trigger] l.contains_key(k) <==> id_views(keys@).contains(k),
                    forall|k: int|
                        #![trigger board.issues@[k]]
                        i < k < original.len() ==> board.issues@[k] == original[k],
                    forall|k: int|
                        #![trigger board.issues@[k]]
                        0 <= k < i ==> {
                            let before = original[k];
                            let after = board.issues@[k];
                            &&& after.key == before.key
                            &&& after.summary == before.summary
                            &&& after.status == before.status
                            &&& after.issue_type == before.issue_type
                            &&& after.parent_key == before.parent_key
                            &&& after.has_children == before.has_children
                            &&& after.field_values@ == board_issue_fields_after(
                                before,
                                list_issues@,
                            )
                        },
                    board.issues@[i as int].key == original[i as int].key,
                    board.issues@[i as int].summary == original[i as int].summary,
                    board.issues@[i as int].status == original[i as int].status,
                    board.issues@[i as int].issue_type == original[i as int].issue_type,
                    board.issues@[i as int].parent_key == original[i as int].parent_key,
                    board.issues@[i as int].has_children == original[i as int].has_children,
                    b0 == original[i as int].field_values@,
                    board.issues@[i as int].field_values@ == merged_over(
                        b0,
                        l,
                        id_views(keys@).take(n as int),
                    ),
                decreases keys.len() - n,
            {
                let key = &keys[n];
                let ghost done = id_views(keys@).take(n as int);
                let ghost next = id_views(keys@).take(n + 1);
                assert(next =~= done.push(key@));
                assert forall|k: Seq<char>| #[trigger] next.contains(k) <==> (done.contains(k) || k
                    == key@) by {
                    crate::collections::lemma_contains_push(done, key@, k);
                }
                assert(l.contains_key(key@)) by {
                    assert(id_views(keys@)[n as int] == key@);
                }
                if let Some(value) = list_fields.get(key.as_str()) {
                    let wins = str_eq(key.as_str(), "assignee") || str_eq(key.as_str(), "reporter");
                    if wins {
                        board.issues[i].field_values.insert(key.clone(), value.clone());
                    } else if !board.issues[i].field_values.contains_key(key.as_str()) {
                        board.issues[i].field_values.insert(key.clone(), value.clone());
                    }
                    assert(board.issues@[i as int].field_values@ =~= merged_over(b0, l, next));
                }
                n = n + 1;
            }
            proof {
                assert(merged_over(b0, l, id_views(keys@).take(keys@.len() as int)) =~= merged_fields(b0, l)) by {
                    assert(id_views(keys@).take(keys@.len() as int) =~= id_views(keys@));
                }
            }
        }
        i = i + 1;
    }
}

/// Fields the picker never offers: the fixed columns and those pinned at
/// its top.
pub open spec fn is_pinned_field(id: Seq<char>) -> bool {
    id == "key"@ || id == "summary"@ || id == "priority"@ || id == "assignee"@ || id == "status"@
        || id == "labels"@ || id == "issuetype"@
}

pub open spec fn populated_view(populated: Option<&IdSet>) -> Option<Set<Seq<char>>> {
    match populated {
        Some(ids) => Some(ids@),
        None => None,
    }
}

/// Whether a field belongs in the picker's selectable tail: not pinned, and
/// populated in the project's recent issues when that sample is known.
pub open spec fn is_candidate(f: FieldSummary, populated: Option<Set<Seq<char>>>) -> bool {
    !is_pinned_field(f.id@) && match populated {
        Some(ids) => ids.contains(f.id@),
        None => true,
    }
}

fn copy_field(f: &FieldSummary) -> (r: FieldSummary)
    ensures
        r == *f,
{
    FieldSummary { id: f.id.clone(), name: f.name.clone() }
}

fn is_pinned(id: &str) -> (r: bool)
    ensures
        r == is_pinned_field(id@),
{
    str_eq(id, "key") || str_eq(id, "summary") || str_eq(id, "priority") || str_eq(id, "assignee")
        || str_eq(id, "status") || str_eq(id, "labels") || str_eq(id, "issuetype")
}

/// The fields that belong in the column picker's selectable tail, in order.
pub fn candidate_fields(fields: Vec<FieldSummary>, populated_fields: Option<&IdSet>) -> (r: Vec<
    FieldSummary,
>)
    ensures
        r@ == fields@.filter(|f: FieldSummary| is_candidate(f, populated_view(populated_fields))),
{
    let ghost pop = populated_view(populated_fields);
    let mut out: Vec<FieldSummary> = Vec::new();
    let mut i: usize = 0;
    while i < fields.len()
        invariant
            i <= fields@.len(),
            pop == populated_view(populated_fields),
            out@ == fields@.take(i as int).filter(|f: FieldSummary| is_candidate(f, pop)),
        decreases fields@.len() - i,
    {
        proof {
            reveal_with_fuel(Seq::filter, 1);
            assert(fields@.take(i + 1).drop_last() =~= fields@.take(i as int));
        }
        let field = &fields[i];
        let keep = !is_pinned(field.id.as_str()) && match populated_fields {
            Some(ids) => ids.contains(field.id.as_str()),
            None => true,
        };
        if keep {
            out.push(copy_field(field));
            assert(out@ =~= fields@.take(i + 1).filter(|f: FieldSummary| is_candidate(f, pop)));
        } else {
            assert(out@ =~= fields@.take(i + 1).filter(|f: FieldSummary| is_candidate(f, pop)));
        }
        i = i + 1;
    }
    assert(fields@.take(fields@.len() as int) =~= fields@);
    out
}

/// How often each display name occurs among the pinned names and the
/// candidate fields (a list of names with repeats, in place of a hash map of
/// counts).
#[derive(Debug, Clone, PartialEq, Eq)]
pub struct NameCounts {
    names: Vec<String>,
}

impl View for NameCounts {
    type V = Seq<Seq<char>>;

    closed spec fn view(&self) -> Seq<Seq<char>> {
        id_views(self.names@)
    }
}

/// How often `name` occurs in `names`.
pub open spec fn occurrences(names: Seq<Seq<char>>, name: Seq<char>) -> nat {
    names.filter(|n: Seq<char>| n == name).len()
}

/// The names of the columns pinned at the picker's top, which a custom field
/// of the same name must be told apart from.
pub open spec fn pinned_names() -> Seq<Seq<char>> {
    seq!["Assignee"@, "Status"@, "Labels"@, "Work type"@]
}

/// The names counted for disambiguation: the pinned names, then each
/// candidate's name.
pub open spec fn counted_names(candidates: Seq<FieldSummary>) -> Seq<Seq<char>> {
    pinned_names() + candidates.map_values(|f: FieldSummary| f.name@)
}

impl NameCounts {
    /// How often `name` occurs.
    pub fn get(&self, name: &str) -> (r: usize)
        ensures
            r == occurrences(self@, name@),
    {
        let ghost v = self@;
        let mut count: usize = 0;
        let mut i: usize = 0;
        while i < self.names.len()
            invariant
                i <= self.names@.len(),
                v == self@,
                v == id_views(self.names@),
                count == occurrences(v.take(i as int), name@),
                count <= i,
            decreases self.names@.len() - i,
        {
            proof {
                reveal_with_fuel(Seq::filter, 1);
                assert(v.take(i + 1).drop_last() =~= v.take(i as int));
            }
            if str_eq(self.names[i].as_str(), name) {
                count = count + 1;
            }
            i = i + 1;
        }
        assert(v.take(self.names@.len() as int) =~= v);
        count
    }
}

/// Counts how often each display name occurs among the pinned names and the
/// candidates, so colliding names can be told apart by field id.
pub fn name_disambiguation(candidates: &[FieldSummary]) -> (r: NameCounts)
    ensures
        r@ == counted_names(candidates@),
{
    let mut names: Vec<String> = Vec::new();
    names.push(String::from_str("Assignee"));
    names.push(String::from_str("Status"));
    names.push(String::from_str("Labels"));
    names.push(String::from_str("Work type"));
    assert(id_views(names@) =~= pinned_names());
    let mut i: usize = 0;
    while i < candidates.len()
        invariant
            i <= candidates@.len(),
            id_views(names@) == pinned_names() + candidates@.take(i as int).map_values(
                |f: FieldSummary| f.name@,
            ),
        decreases candidates@.len() - i,
    {
        let ghost before = names@;
        names.push(candidates[i].name.clone());
        assert(id_views(names@) =~= id_views(before).push(candidates@[i as int].name@));
        i = i + 1;
        assert(candidates@.take(i as int).map_values(|f: FieldSummary| f.name@) =~= candidates@.take(
            i - 1,
        ).map_values(|f: FieldSummary| f.name@).push(candidates@[i - 1].name@));
    }
    assert(candidates@.take(candidates@.len() as int) =~= candidates@);
    NameCounts { names }
}

/// The rank of a common system field, by its id.
pub open spec fn curated_id_rank(id: Seq<char>) -> Option<int> {
    if id == "reporter"@ {
        Some(0)
    } else if id == "creator"@ {
        Some(1)
    } else if id == "created"@ {
        Some(2)
    } else if id == "updated"@ {
        Some(3)
    } else if id == "duedate"@ {
        Some(4)
    } else if id == "resolution"@ {
        Some(5)
    } else if id == "fixVersions"@ {
        Some(6)
    } else if id == "versions"@ {
        Some(7)
    } else if id == "components"@ {
        Some(8)
    } else {
        None
    }
}

/// The rank of a common agile field, by its display name.
pub open spec fn curated_name_rank(name: Seq<char>) -> Option<int> {
    if name == "Sprint"@ {
        Some(0)
    } else if name == "Story Points"@ {
        Some(1)
    } else if name == "Story point estimate"@ {
        Some(2)
    } else if name == "Epic Link"@ {
        Some(3)
    } else {
        None
    }
}

/// Where a common field is listed: the system fields by id first, then the
/// agile fields by name; other fields have no rank.
pub open spec fn curated_rank(f: FieldSummary) -> Option<int> {
    match curated_id_rank(f.id@) {
        Some(r) => Some(r),
        None => match curated_name_rank(f.name@) {
            Some(p) => Some(9 + p),
            None => None,
        },
    }
}

/// Index of the first element of `t`, from `i` on, that `gt` puts after
/// `x`; the length of `t` when there is none.
pub open spec fn first_after<A>(t: Seq<A>, x: A, gt: spec_fn(A, A) -> bool, i: int) -> int
    decreases t.len() - i,
{
    if i < 0 || i >= t.len() {
        t.len() as int
    } else if gt(t[i], x) {
        i
    } else {
        first_after(t, x, gt, i + 1)
    }
}

/// `s` sorted stably by the order `gt`: each element, in turn, is placed
/// after every earlier element that `gt` does not put after it.
pub open spec fn stable_sorted<A>(s: Seq<A>, gt: spec_fn(A, A) -> bool) -> Seq<A>
    decreases s.len(),
{
    if s.len() == 0 {
        Seq::empty()
    } else {
        let t = stable_sorted(s.drop_last(), gt);
        t.insert(first_after(t, s.last(), gt, 0), s.last())
    }
}

pub open spec fn rank_after() -> spec_fn(FieldSummary, FieldSummary) -> bool {
    |a: FieldSummary, b: FieldSummary| curated_rank(a)->0 > curated_rank(b)->0
}

pub open spec fn name_after() -> spec_fn(FieldSummary, FieldSummary) -> bool {
    |a: FieldSummary, b: FieldSummary| lex_lt(str_lowercase(b.name@), str_lowercase(a.name@))
}

proof fn lemma_first_after_bounds<A>(t: Seq<A>, x: A, gt: spec_fn(A, A) -> bool, i: int)
    requires
        0 <= i <= t.len(),
    ensures
        i <= first_after(t, x, gt, i) <= t.len(),
    decreases t.len() - i,
{
    if i < t.len() && !gt(t[i], x) {
        lemma_first_after_bounds(t, x, gt, i + 1);
    }
}

fn curated_rank_of(f: &FieldSummary) -> (r: Option<usize>)
    ensures
        match r {
            Some(k) => curated_rank(*f) == Some(k as int),
            None => curated_rank(*f) is None,
        },
{
    let id = f.id.as_str();
    let by_id = if str_eq(id, "reporter") {
        Some(0)
    } else if str_eq(id, "creator") {
        Some(1)
    } else if str_eq(id, "created") {
        Some(2)
    } else if str_eq(id, "updated") {
        Some(3)
    } else if str_eq(id, "duedate") {
        Some(4)
    } else if str_eq(id, "resolution") {
        Some(5)
    } else if str_eq(id, "fixVersions") {
        Some(6)
    } else if str_eq(id, "versions") {
        Some(7)
    } else if str_eq(id, "components") {
        Some(8)
    } else {
        None
    };
    if by_id.is_some() {
        return by_id;
    }
    let name = f.name.as_str();
    if str_eq(name, "Sprint") {
        Some(9)
    } else if str_eq(name, "Story Points") {
        Some(10)
    } else if str_eq(name, "Story point estimate") {
        Some(11)
    } else if str_eq(name, "Epic Link") {
        Some(12)
    } else {
        None
    }
}

/// Whether `a` sorts after `b` by their lower-cased names.
fn name_sorts_after(a: &FieldSummary, b: &FieldSummary) -> (r: bool)
    ensures
        r == name_after()(*a, *b),
{
    let la = chars_of(to_lowercase_str(a.name.as_str()).as_str());
    let lb = chars_of(to_lowercase_str(b.name.as_str()).as_str());
    chars_lex_lt(&lb, &la)
}

/// Whether `a` sorts after `b` by rank (both ranked).
fn rank_sorts_after(a: &FieldSummary, b: &FieldSummary) -> (r: bool)
    requires
        curated_rank(*a) is Some,
        curated_rank(*b) is Some,
    ensures
        r == rank_after()(*a, *b),
{
    let ra = curated_rank_of(a);
    let rb = curated_rank_of(b);
    match (ra, rb) {
        (Some(x), Some(y)) => x > y,
        _ => false,
    }
}

/// The ranked fields sorted stably by rank.
fn sort_by_rank(fields: &Vec<FieldSummary>) -> (r: Vec<FieldSummary>)
    requires
        forall|i: int| 0 <= i < fields@.len() ==> (#[trigger] curated_rank(fields@[i])) is Some,
    ensures
        r@ == stable_sorted(fields@, rank_after()),
{
    let mut out: Vec<FieldSummary> = Vec::new();
    let mut i: usize = 0;
    while i < fields.len()
        invariant
            i <= fields@.len(),
            forall|k: int| 0 <= k < fields@.len() ==> (#[trigger] curated_rank(fields@[k])) is Some,
            out@ == stable_sorted(fields@.take(i as int), rank_after()),
            forall|k: int| 0 <= k < out@.len() ==> (#[trigger] curated_rank(out@[k])) is Some,
        decreases fields@.len() - i,
    {
        let x = copy_field(&fields[i]);
        assert(curated_rank(fields@[i as int]) is Some);
        let mut p: usize = 0;
        while p < out.len() && !rank_sorts_after(&out[p], &x)
            invariant
                p <= out@.len(),
                x == fields@[i as int],
                curated_rank(x) is Some,
                forall|k: int| 0 <= k < out@.len() ==> (#[trigger] curated_rank(out@[k])) is Some,
                first_after(out@, x, rank_after(), 0) == first_after(out@, x, rank_after(), p as int),
            decreases out@.len() - p,
        {
            p = p + 1;
        }
        proof {
            assert(fields@.take(i + 1).drop_last() =~= fields@.take(i as int));
            assert(first_after(out@, x, rank_after(), p as int) == p);
        }
        let ghost before = out@;
        out.insert(p, x);
        assert forall|k: int| 0 <= k < out@.len() implies (#[trigger] curated_rank(out@[k])) is Some by {
            if k < p {
                assert(out@[k] == before[k]);
            } else if k > p {
                assert(out@[k] == before[k - 1]);
            }
        }
        i = i + 1;
    }
    assert(fields@.take(fields@.len() as int) =~= fields@);
    out
}

/// The fields sorted stably by lower-cased name.
fn sort_by_name(fields: &Vec<FieldSummary>) -> (r: Vec<FieldSummary>)
    ensures
        r@ == stable_sorted(fields@, name_after()),
{
    let mut out: Vec<FieldSummary> = Vec::new();
    let mut i: usize = 0;
    while i < fields.len()
        invariant
            i <= fields@.len(),
            out@ == stable_sorted(fields@.take(i as int), name_after()),
        decreases fields@.len() - i,
    {
        let x = copy_field(&fields[i]);
        let mut p: usize = 0;
        while p < out.len() && !name_sorts_after(&out[p], &x)
            invariant
                p <= out@.len(),
                x == fields@[i as int],
                first_after(out@, x, name_after(), 0) == first_after(out@, x, name_after(), p as int),
            decreases out@.len() - p,
        {
            p = p + 1;
        }
        proof {
            assert(fields@.take(i + 1).drop_last() =~= fields@.take(i as int));
            assert(first_after(out@, x, name_after(), p as int) == p);
        }
        out.insert(p, x);
        i = i + 1;
    }
    assert(fields@.take(fields@.len() as int) =~= fields@);
    out
}

/// A picker column for a field: its name, with the id added when the name
/// occurs more than once.
pub open spec fn field_picker_column(f: FieldSummary, names: Seq<Seq<char>>) -> ColumnView {
    if occurrences(names, f.name@) > 1 {
        field_column(f.id@, f.name@ + " ("@ + f.id@ + ")"@)
    } else {
        field_column(f.id@, f.name@)
    }
}

/// The picker columns for the candidates: the common fields first, in their
/// listed order, then the rest by lower-cased name, each sort keeping equal
/// fields in their given order.
pub open spec fn ordered_columns_spec(candidates: Seq<FieldSummary>, names: Seq<Seq<char>>) -> Seq<
    ColumnView,
> {
    let curated = candidates.filter(|f: FieldSummary| curated_rank(f) is Some);
    let rest = candidates.filter(|f: FieldSummary| curated_rank(f) is None);
    (stable_sorted(curated, rank_after()) + stable_sorted(rest, name_after())).map_values(
        |f: FieldSummary| field_picker_column(f, names),
    )
}

/// Orders the candidates (common fields first, then an alphabetical tail)
/// and builds their picker columns, telling shared names apart by field id.
pub fn ordered_columns(candidates: Vec<FieldSummary>, name_counts: &NameCounts) -> (r: Vec<
    JiraIssueColumn,
>)
    ensures
        column_views(r@) == ordered_columns_spec(candidates@, name_counts@),
{
    let ghost curated_spec = candidates@.filter(|f: FieldSummary| curated_rank(f) is Some);
    let ghost rest_spec = candidates@.filter(|f: FieldSummary| curated_rank(f) is None);
    let mut curated: Vec<FieldSummary> = Vec::new();
    let mut rest: Vec<FieldSummary> = Vec::new();
    let mut i: usize = 0;
    while i < candidates.len()
        invariant
            i <= candidates@.len(),
            curated@ == candidates@.take(i as int).filter(|f: FieldSummary| curated_rank(f) is Some),
            rest@ == candidates@.take(i as int).filter(|f: FieldSummary| curated_rank(f) is None),
        decreases candidates@.len() - i,
    {
        proof {
            reveal_with_fuel(Seq::filter, 1);
            assert(candidates@.take(i + 1).drop_last() =~= candidates@.take(i as int));
        }
        let f = copy_field(&candidates[i]);
        if curated_rank_of(&f).is_some() {
            curated.push(f);
        } else {
            rest.push(f);
        }
        i = i + 1;
    }
    assert(candidates@.take(candidates@.len() as int) =~= candidates@);
    proof {
        let p = |f: FieldSummary| curated_rank(f) is Some;
        candidates@.filter_lemma(p);
        assert forall|k: int| 0 <= k < curated@.len() implies (#[trigger] curated_rank(curated@[k])) is Some by {
            assert(p(candidates@.filter(p)[k]));
        }
    }
    let mut order = sort_by_rank(&curated);
    let mut sorted_rest = sort_by_name(&rest);
    order.append(&mut sorted_rest);
    let mut columns: Vec<JiraIssueColumn> = Vec::new();
    let mut j: usize = 0;
    while j < order.len()
        invariant
            j <= order@.len(),
            order@ == stable_sorted(curated_spec, rank_after()) + stable_sorted(rest_spec, name_after()),
            column_views(columns@) == order@.take(j as int).map_values(
                |f: FieldSummary| field_picker_column(f, name_counts@),
            ),
        decreases order@.len() - j,
    {
        let f = &order[j];
        let label = if name_counts.get(f.name.as_str()) > 1 {
            let mut label = f.name.clone();
            label.append(" (");
            label.append(f.id.as_str());
            label.append(")");
            label
        } else {
            f.name.clone()
        };
        let ghost before = columns@;
        columns.push(JiraIssueColumn::Field { id: f.id.clone(), label });
        assert(column_views(columns@) =~= column_views(before).push(
            field_picker_column(order@[j as int], name_counts@),
        ));
        assert(order@.take(j + 1) =~= order@.take(j as int).push(order@[j as int]));
        j = j + 1;
    }
    assert(order@.take(order@.len() as int) =~= order@);
    columns
}

/// The columns the picker offers once Jira's fields are known: assignee,
/// status, labels and work type pinned first, then the candidate fields in
/// picker order.
pub open spec fn available_columns_spec(
    fields: Seq<FieldSummary>,
    populated: Option<Set<Seq<char>>>,
) -> Seq<ColumnView> {
    let candidates = fields.filter(|f: FieldSummary| is_candidate(f, populated));
    seq![
        field_column("assignee"@, "Assignee"@),
        ColumnView::Status,
        field_column("labels"@, "Labels"@),
        ColumnView::IssueType,
    ] + ordered_columns_spec(candidates, counted_names(candidates))
}

/// The picker columns for the loaded fields.
pub fn available_columns(fields: Vec<FieldSummary>, populated_fields: Option<&IdSet>) -> (r: Vec<
    JiraIssueColumn,
>)
    ensures
        column_views(r@) == available_columns_spec(fields@, populated_view(populated_fields)),
{
    let mut columns: Vec<JiraIssueColumn> = Vec::new();
    columns.push(
        JiraIssueColumn::Field {
            id: String::from_str("assignee"),
            label: String::from_str("Assignee"),
        },
    );
    columns.push(JiraIssueColumn::Status);
    columns.push(JiraIssueColumn::labels_column());
    columns.push(JiraIssueColumn::IssueType);
    let ghost pinned = column_views(columns@);
    let candidates = candidate_fields(fields, populated_fields);
    let name_counts = name_disambiguation(candidates.as_slice());
    let mut ordered = ordered_columns(candidates, &name_counts);
    let ghost tail = column_views(ordered@);
    columns.append(&mut ordered);
    assert(column_views(columns@) =~= pinned + tail);
    columns
}

/// A strict order: never an element after itself, and transitive.
pub open spec fn strict_order<A>(gt: spec_fn(A, A) -> bool) -> bool {
    &&& forall|a: A| !#[trigger] gt(a, a)
    &&& forall|a: A, b: A, c: A| #[trigger] gt(a, b) && #[trigger] gt(b, c) ==> gt(a, c)
}

proof fn lemma_first_after_spec<A>(t: Seq<A>, x: A, gt: spec_fn(A, A) -> bool, i: int)
    requires
        0 <= i <= t.len(),
    ensures
        i <= first_after(t, x, gt, i) <= t.len(),
        forall|k: int| i <= k < first_after(t, x, gt, i) ==> !gt(#[trigger] t[k], x),
        first_after(t, x, gt, i) < t.len() ==> gt(t[first_after(t, x, gt, i)], x),
    decreases t.len() - i,
{
    if i < t.len() && !gt(t[i], x) {
        lemma_first_after_spec(t, x, gt, i + 1);
    }
}

/// A stable sort by a transitive order leaves no element after one it
/// should precede, and keeps exactly the given elements.
pub proof fn lemma_stable_sorted<A>(s: Seq<A>, gt: spec_fn(A, A) -> bool)
    requires
        strict_order(gt),
    ensures
        stable_sorted(s, gt).len() == s.len(),
        stable_sorted(s, gt).to_multiset() == s.to_multiset(),
        forall|i: int, j: int|
            0 <= i < j < s.len() ==> !gt(
                #[trigger] stable_sorted(s, gt)[i],
                #[trigger] stable_sorted(s, gt)[j],
            ),
    decreases s.len(),
{
    broadcast use vstd::seq_lib::group_to_multiset_ensures;
    if s.len() > 0 {
        let t = stable_sorted(s.drop_last(), gt);
        let x = s.last();
        lemma_stable_sorted(s.drop_last(), gt);
        lemma_first_after_spec(t, x, gt, 0);
        let p = first_after(t, x, gt, 0);
        let r = t.insert(p, x);
        assert(r == stable_sorted(s, gt));
        assert(s =~= s.drop_last().push(x));
        assert(r.to_multiset() =~= t.to_multiset().insert(x)) by {
            vstd::seq_lib::to_multiset_insert(t, p, x);
        }
        assert forall|i: int, j: int| 0 <= i < j < r.len() implies !gt(#[trigger] r[i], #[trigger] r[j]) by {
            if j < p {
                assert(r[i] == t[i] && r[j] == t[j]);
                assert(!gt(t[i], t[j]));
            } else if j == p {
                assert(r[j] == x && r[i] == t[i]);
                assert(!gt(t[i], x));
            } else if i == p {
                assert(r[i] == x && r[j] == t[j - 1]);
                assert(gt(t[p], x));
                if gt(x, t[j - 1]) {
                    assert(gt(t[p], t[j - 1]));
                    if p < j - 1 {
                        assert(!gt(t[p], t[j - 1]));
                    } else {
                        assert(!gt(t[p], t[p]));
                    }
                }
            } else if i < p {
                assert(r[i] == t[i] && r[j] == t[j - 1]);
                assert(!gt(t[i], t[j - 1]));
            } else {
                assert(r[i] == t[i - 1] && r[j] == t[j - 1]);
                assert(!gt(t[i - 1], t[j - 1]));
            }
        }
    }
}

/// Lexicographic order of characters is transitive.
pub proof fn lemma_lex_lt_transitive(a: Seq<char>, b: Seq<char>, c: Seq<char>)
    requires
        lex_lt(a, b),
        lex_lt(b, c),
    ensures
        lex_lt(a, c),
    decreases a.len(),
{
    if a.len() > 0 && b.len() > 0 && c.len() > 0 && a[0] == b[0] && b[0] == c[0] {
        lemma_lex_lt_transitive(a.skip(1), b.skip(1), c.skip(1));
    }
}

/// No sequence comes before itself.
pub proof fn lemma_lex_lt_irreflexive(a: Seq<char>)
    ensures
        !lex_lt(a, a),
    decreases a.len(),
{
    if a.len() > 0 {
        lemma_lex_lt_irreflexive(a.skip(1));
    }
}

/// The common fields come in their listed order and the rest in order of
/// their lower-cased names, with no field gained or lost.
pub proof fn lemma_column_orders_sorted(s: Seq<FieldSummary>)
    ensures
        stable_sorted(s, rank_after()).to_multiset() == s.to_multiset(),
        stable_sorted(s, name_after()).to_multiset() == s.to_multiset(),
        forall|i: int, j: int|
            0 <= i < j < s.len() ==> curated_rank(#[trigger] stable_sorted(s, rank_after())[i])->0
                <= curated_rank(#[trigger] stable_sorted(s, rank_after())[j])->0,
        forall|i: int, j: int|
            0 <= i < j < s.len() ==> !lex_lt(
                str_lowercase((#[trigger] stable_sorted(s, name_after())[j]).name@),
                str_lowercase((#[trigger] stable_sorted(s, name_after())[i]).name@),
            ),
{
    assert(strict_order(rank_after()));
    assert forall|a: FieldSummary, b: FieldSummary, c: FieldSummary|
        #[trigger] name_after()(a, b) && #[trigger] name_after()(b, c) implies name_after()(a, c) by {
        lemma_lex_lt_transitive(
            str_lowercase(c.name@),
            str_lowercase(b.name@),
            str_lowercase(a.name@),
        );
    }
    assert forall|a: FieldSummary| !#[trigger] name_after()(a, a) by {
        lemma_lex_lt_irreflexive(str_lowercase(a.name@));
    }
    lemma_stable_sorted(s, rank_after());
    lemma_stable_sorted(s, name_after());
    assert forall|i: int, j: int| 0 <= i < j < s.len() implies curated_rank(
        #[trigger] stable_sorted(s, rank_after())[i],
    )->0 <= curated_rank(#[trigger] stable_sorted(s, rank_after())[j])->0 by {
        assert(!rank_after()(stable_sorted(s, rank_after())[i], stable_sorted(s, rank_after())[j]));
    }
    assert forall|i: int, j: int| 0 <= i < j < s.len() implies !lex_lt(
        str_lowercase((#[trigger] stable_sorted(s, name_after())[j]).name@),
        str_lowercase((#[trigger] stable_sorted(s, name_after())[i]).name@),
    ) by {
        assert(!name_after()(stable_sorted(s, name_after())[i], stable_sorted(s, name_after())[j]));
    }
}

} // verus!
