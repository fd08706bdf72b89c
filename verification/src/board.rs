//! The board view: issues laid out in columns by status and, when grouped,
//! in swimlanes; keyboard navigation moves a selection over the cards, the
//! empty cells between them and the swimlane headers.
use vstd::prelude::*;
use vstd::string::StrSliceExecFns;
use crate::avatar::{initials, initials_spec};
use crate::collections::{id_views, FieldMap, IdSet};
use crate::models::{
    decimal, decimal_chars, BoardColumnSummary, BoardData, BoardSwimlaneSummary, IssueSummary,
    UserSummary,
};
use crate::text::{
    find_char, first_index_of, lemma_first_index_of, parse_unsigned, parse_usize, ascii_lower_chars, ascii_lower_seq, chars_eq, chars_of, contains_chars, seq_contains,
    string_from_chars, trim, trim_chars,
};

verus! {

#[derive(Debug, Clone, Copy, PartialEq, Eq, Structural)]
pub enum BoardAction {
    MoveLeft,
    MoveRight,
    MoveUp,
    MoveDown,
    HalfPageUp,
    HalfPageDown,
    GoToStart,
    GoToEnd,
    GoToStartPrefix,
    ToggleCollapse,
    CollapseAllGroups,
    ExpandAllGroups,
}

/// How the board splits its issues into swimlanes.
#[derive(Debug, Clone, Copy, PartialEq, Eq, Structural)]
pub enum BoardGrouping {
    /// One set of lanes as the board defines them; shown as "None".
    Ungrouped,
    Assignee,
    Epic,
    Stories,
    Spaces,
}

impl BoardGrouping {
    /// Every grouping, in menu order.
    pub fn all() -> (r: Vec<BoardGrouping>)
        ensures
            r@ == seq![
                BoardGrouping::Ungrouped,
                BoardGrouping::Assignee,
                BoardGrouping::Epic,
                BoardGrouping::Stories,
                BoardGrouping::Spaces,
            ],
    {
        vec![
            BoardGrouping::Ungrouped,
            BoardGrouping::Assignee,
            BoardGrouping::Epic,
            BoardGrouping::Stories,
            BoardGrouping::Spaces,
        ]
    }

    pub open spec fn label_spec(self) -> &'static str {
        match self {
            BoardGrouping::Ungrouped => "None",
            BoardGrouping::Assignee => "Assignee",
            BoardGrouping::Epic => "Epic",
            BoardGrouping::Stories => "Stories",
            BoardGrouping::Spaces => "Spaces",
        }
    }

    pub fn label(self) -> (r: &'static str)
        ensures
            r == self.label_spec(),
    {
        match self {
            BoardGrouping::Ungrouped => "None",
            BoardGrouping::Assignee => "Assignee",
            BoardGrouping::Epic => "Epic",
            BoardGrouping::Stories => "Stories",
            BoardGrouping::Spaces => "Spaces",
        }
    }

    /// Whether this grouping splits the board into swimlanes.
    pub fn is_grouped(self) -> (r: bool)
        ensures
            r == (self != BoardGrouping::Ungrouped),
    {
        self != BoardGrouping::Ungrouped
    }

    pub open spec fn catch_all_spec(self) -> Seq<char> {
        match self {
            BoardGrouping::Ungrouped => ""@,
            BoardGrouping::Assignee => "Unassigned"@,
            BoardGrouping::Epic => "No Epic"@,
            BoardGrouping::Stories => "Other work items"@,
            BoardGrouping::Spaces => "Other"@,
        }
    }

    /// Label of the catch-all swimlane that always sorts to the bottom.
    fn catch_all_label(self) -> (r: &'static str)
        ensures
            r@ == self.catch_all_spec(),
    {
        match self {
            BoardGrouping::Ungrouped => "",
            BoardGrouping::Assignee => "Unassigned",
            BoardGrouping::Epic => "No Epic",
            BoardGrouping::Stories => "Other work items",
            BoardGrouping::Spaces => "Other",
        }
    }
}

pub open spec fn group_key_spec(group: Seq<char>) -> Seq<char> {
    "__board_group__:"@ + group
}

pub open spec fn empty_key_spec(group: Seq<char>, column: nat) -> Seq<char> {
    "__board_empty__:"@ + decimal(column) + seq!['\u{1f}'] + group
}

pub open spec fn has_prefix(s: Seq<char>, prefix: Seq<char>) -> bool {
    prefix.len() <= s.len() && s.take(prefix.len() as int) == prefix
}

fn chars_start_with(s: &Vec<char>, prefix: &Vec<char>) -> (r: bool)
    ensures
        r == has_prefix(s@, prefix@),
{
    if prefix.len() > s.len() {
        return false;
    }
    let mut i: usize = 0;
    while i < prefix.len()
        invariant
            prefix.len() <= s.len(),
            i <= prefix.len(),
            forall|j: int| 0 <= j < i ==> s@[j] == prefix@[j],
        decreases prefix.len() - i,
    {
        if s[i] != prefix[i] {
            assert(s@.take(prefix.len() as int)[i as int] != prefix@[i as int]);
            return false;
        }
        i = i + 1;
    }
    assert(s@.take(prefix.len() as int) =~= prefix@);
    true
}

/// Selection key of the header of swimlane `group`.
pub fn board_group_key(group: &str) -> (r: String)
    ensures
        r@ == group_key_spec(group@),
{
    let mut out = chars_of("__board_group__:");
    let mut rest = chars_of(group);
    out.append(&mut rest);
    string_from_chars(&out)
}

/// Whether `key` selects a swimlane header.
pub fn is_board_group_key(key: &str) -> (r: bool)
    ensures
        r == has_prefix(key@, "__board_group__:"@),
{
    chars_start_with(&chars_of(key), &chars_of("__board_group__:"))
}

/// The swimlane named by a header key.
pub fn board_group_key_name(key: &str) -> (r: Option<&str>)
    ensures
        match r {
            Some(name) => has_prefix(key@, "__board_group__:"@) && key@ == "__board_group__:"@ + name@,
            None => !has_prefix(key@, "__board_group__:"@),
        },
{
    let prefix = chars_of("__board_group__:");
    if chars_start_with(&chars_of(key), &prefix) {
        let name = key.substring_char(prefix.len(), key.unicode_len());
        assert(key@ =~= "__board_group__:"@ + name@);
        Some(name)
    } else {
        None
    }
}

/// Selection key of an empty cell: the unit separator keeps it unambiguous
/// against any group name.
pub fn board_empty_cell_key(group: &str, column: usize) -> (r: String)
    ensures
        r@ == empty_key_spec(group@, column as nat),
{
    let mut out = chars_of("__board_empty__:");
    let mut digits = decimal_chars(column as u64);
    out.append(&mut digits);
    out.push('\u{1f}');
    let mut rest = chars_of(group);
    out.append(&mut rest);
    assert(out@ =~= empty_key_spec(group@, column as nat));
    string_from_chars(&out)
}

/// Whether `key` selects an empty cell.
pub fn is_board_empty_key(key: &str) -> (r: bool)
    ensures
        r == has_prefix(key@, "__board_empty__:"@),
{
    chars_start_with(&chars_of(key), &chars_of("__board_empty__:"))
}

/// The `(group, column)` an empty-cell key names, if it is one.
pub open spec fn empty_cell_parts_spec(key: Seq<char>) -> Option<(Seq<char>, int)> {
    let prefix = "__board_empty__:"@;
    if !has_prefix(key, prefix) {
        None
    } else {
        let rest = key.skip(prefix.len() as int);
        let i = first_index_of(rest, '\u{1f}');
        if i == rest.len() {
            None
        } else {
            match parse_unsigned(rest.take(i)) {
                Some(column) => if column <= usize::MAX {
                    Some((rest.skip(i + 1), column))
                } else {
                    None
                },
                None => None,
            }
        }
    }
}

/// Parses an empty-cell key back into `(group, column)`.
pub fn board_empty_cell_parts(key: &str) -> (r: Option<(&str, usize)>)
    ensures
        match r {
            Some((group, column)) => empty_cell_parts_spec(key@) == Some((group@, column as int)),
            None => empty_cell_parts_spec(key@) is None,
        },
{
    let v = chars_of(key);
    let prefix = chars_of("__board_empty__:");
    if !chars_start_with(&v, &prefix) {
        return None;
    }
    let start = prefix.len();
    let sep = find_char(&v, start, v.len(), '\u{1f}');
    proof {
        assert(v@.subrange(start as int, v.len() as int) =~= key@.skip(prefix@.len() as int));
        lemma_first_index_of(key@.skip(prefix@.len() as int), '\u{1f}');
    }
    if sep == v.len() {
        return None;
    }
    let column = match parse_usize(&v, start, sep) {
        Some(c) => c,
        None => {
            assert(v@.subrange(start as int, sep as int) =~= key@.skip(prefix@.len() as int).take(sep - start));
            return None;
        },
    };
    assert(v@.subrange(start as int, sep as int) =~= key@.skip(prefix@.len() as int).take(sep - start));
    let group = key.substring_char(sep + 1, key.unicode_len());
    assert(group@ =~= key@.skip(prefix@.len() as int).skip(sep - start + 1));
    Some((group, column))
}
/// Position of the first issue whose key is `key`, looking from `i` on.
pub open spec fn issue_index_from(issues: Seq<IssueSummary>, key: Seq<char>, i: int) -> Option<int>
    decreases issues.len() - i,
{
    if i < 0 || i >= issues.len() {
        None
    } else if issues[i].key@ == key {
        Some(i)
    } else {
        issue_index_from(issues, key, i + 1)
    }
}

/// Position of the first issue whose key is `key`.
pub open spec fn issue_index(issues: Seq<IssueSummary>, key: Seq<char>) -> Option<int> {
    issue_index_from(issues, key, 0)
}

proof fn lemma_issue_index_from(issues: Seq<IssueSummary>, key: Seq<char>, i: int)
    requires
        0 <= i,
    ensures
        match issue_index_from(issues, key, i) {
            Some(j) => i <= j < issues.len() && issues[j].key@ == key,
            None => true,
        },
    decreases issues.len() - i,
{
    if i < issues.len() && issues[i].key@ != key {
        lemma_issue_index_from(issues, key, i + 1);
    }
}

/// The first issue whose key is `key`.
fn find_issue(issues: &Vec<IssueSummary>, key: &str) -> (r: Option<usize>)
    ensures
        match r {
            Some(j) => issue_index(issues@, key@) == Some(j as int) && j < issues.len(),
            None => issue_index(issues@, key@) is None,
        },
{
    let mut i: usize = 0;
    while i < issues.len()
        invariant
            i <= issues.len(),
            issue_index(issues@, key@) == issue_index_from(issues@, key@, i as int),
        decreases issues.len() - i,
    {
        if crate::text::str_eq(issues[i].key.as_str(), key) {
            return Some(i);
        }
        i = i + 1;
    }
    None
}

/// Whether `field` holds a value whose ASCII-lowercase form contains `needle`.
pub open spec fn field_matches(fields: Map<Seq<char>, Seq<char>>, field: Seq<char>, needle: Seq<char>) -> bool {
    fields.contains_key(field) && seq_contains(ascii_lower_seq(fields[field]), needle)
}

/// Whether the assignee's name, or its initials, contains `needle`.
pub open spec fn assignee_matches(fields: Map<Seq<char>, Seq<char>>, needle: Seq<char>) -> bool {
    fields.contains_key("assignee"@) && {
        let name = ascii_lower_seq(fields["assignee"@]);
        seq_contains(name, needle) || seq_contains(ascii_lower_seq(initials_spec(name)), needle)
    }
}

/// Whether an issue passes the board's search: a blank search passes all;
/// otherwise the trimmed, ASCII-lowercased search must occur in the key,
/// summary, status, type, epic, labels, due date, priority or assignee.
pub open spec fn issue_matches_search(issue: IssueSummary, search: Seq<char>) -> bool {
    let t = trim(search);
    let needle = ascii_lower_seq(t);
    let fields = issue.field_values@;
    ||| t.len() == 0
    ||| seq_contains(ascii_lower_seq(issue.key@), needle)
    ||| seq_contains(ascii_lower_seq(issue.summary@), needle)
    ||| seq_contains(ascii_lower_seq(issue.status@), needle)
    ||| seq_contains(ascii_lower_seq(issue.issue_type@), needle)
    ||| field_matches(fields, "epic_summary"@, needle)
    ||| field_matches(fields, "labels"@, needle)
    ||| field_matches(fields, "dueDate"@, needle)
    ||| field_matches(fields, "priorityName"@, needle)
    ||| assignee_matches(fields, needle)
}

fn text_matches(text: &str, needle: &Vec<char>) -> (r: bool)
    ensures
        r == seq_contains(ascii_lower_seq(text@), needle@),
{
    contains_chars(&ascii_lower_chars(&chars_of(text)), needle)
}

fn field_value_matches(fields: &FieldMap, field: &str, needle: &Vec<char>) -> (r: bool)
    ensures
        r == field_matches(fields@, field@, needle@),
{
    match fields.get(field) {
        Some(value) => text_matches(value.as_str(), needle),
        None => false,
    }
}

/// The search prepared once: trimmed and ASCII-lowercased.
fn search_needle(search: &str) -> (r: Vec<char>)
    ensures
        r@ == ascii_lower_seq(trim(search@)),
{
    ascii_lower_chars(&trim_chars(&chars_of(search)))
}

fn issue_matches(issue: &IssueSummary, search: &str, needle: &Vec<char>) -> (r: bool)
    requires
        needle@ == ascii_lower_seq(trim(search@)),
    ensures
        r == issue_matches_search(*issue, search@),
{
    if needle.len() == 0 {
        return true;
    }
    if text_matches(issue.key.as_str(), needle) || text_matches(issue.summary.as_str(), needle)
        || text_matches(issue.status.as_str(), needle) || text_matches(issue.issue_type.as_str(), needle)
        || field_value_matches(&issue.field_values, "epic_summary", needle)
        || field_value_matches(&issue.field_values, "labels", needle)
        || field_value_matches(&issue.field_values, "dueDate", needle)
        || field_value_matches(&issue.field_values, "priorityName", needle) {
        return true;
    }
    match issue.field_values.get("assignee") {
        Some(assignee) => {
            let name = ascii_lower_chars(&chars_of(assignee.as_str()));
            let name_text = string_from_chars(&name);
            let short = ascii_lower_chars(&chars_of(initials(name_text.as_str()).as_str()));
            contains_chars(&name, needle) || contains_chars(&short, needle)
        },
        None => false,
    }
}

/// Whether a column shows `issue`: by its status id or status name, or by
/// name when the column lists no statuses.
pub open spec fn column_holds(column: BoardColumnSummary, issue: IssueSummary) -> bool {
    if column.statuses@.len() == 0 {
        column.name@ == issue.status@
    } else {
        exists|k: int| 0 <= k < column.statuses@.len() && ({
            let status = (#[trigger] column.statuses@[k])@;
            (issue.field_values@.contains_key("status_id"@) && status == issue.field_values@["status_id"@])
                || status == issue.status@
        })
    }
}

/// The first column from `i` on that shows the issue.
pub open spec fn column_of_from(columns: Seq<BoardColumnSummary>, issue: IssueSummary, i: int) -> Option<int>
    decreases columns.len() - i,
{
    if i < 0 || i >= columns.len() {
        None
    } else if column_holds(columns[i], issue) {
        Some(i)
    } else {
        column_of_from(columns, issue, i + 1)
    }
}

/// The column an issue sits in: the first that shows it, else the first.
pub open spec fn issue_column_spec(columns: Seq<BoardColumnSummary>, issue: IssueSummary) -> int {
    match column_of_from(columns, issue, 0) {
        Some(i) => i,
        None => 0,
    }
}

fn column_contains_issue(column: &BoardColumnSummary, issue: &IssueSummary, status_id: Option<&String>) -> (r: bool)
    requires
        match status_id {
            Some(id) => issue.field_values@.contains_key("status_id"@) && issue.field_values@["status_id"@] == id@,
            None => !issue.field_values@.contains_key("status_id"@),
        },
    ensures
        r == column_holds(*column, *issue),
{
    if column.statuses.len() == 0 {
        return crate::text::str_eq(column.name.as_str(), issue.status.as_str());
    }
    let mut k: usize = 0;
    while k < column.statuses.len()
        invariant
            k <= column.statuses.len(),
            column.statuses@.len() > 0,
            match status_id {
                Some(id) => issue.field_values@.contains_key("status_id"@) && issue.field_values@["status_id"@] == id@,
                None => !issue.field_values@.contains_key("status_id"@),
            },
            forall|j: int| 0 <= j < k ==> !({
                let status = (#[trigger] column.statuses@[j])@;
                (issue.field_values@.contains_key("status_id"@) && status == issue.field_values@["status_id"@])
                    || status == issue.status@
            }),
        decreases column.statuses.len() - k,
    {
        let status = &column.statuses[k];
        let by_id = match status_id {
            Some(id) => crate::text::str_eq(status.as_str(), id.as_str()),
            None => false,
        };
        if by_id || crate::text::str_eq(status.as_str(), issue.status.as_str()) {
            return true;
        }
        k = k + 1;
    }
    false
}

/// The column index an issue is shown in.
pub fn board_issue_column(data: &BoardData, issue: &IssueSummary) -> (r: usize)
    ensures
        r == issue_column_spec(data.columns@, *issue),
{
    let status_id = issue.field_values.get("status_id");
    let mut i: usize = 0;
    while i < data.columns.len()
        invariant
            i <= data.columns.len(),
            column_of_from(data.columns@, *issue, 0) == column_of_from(data.columns@, *issue, i as int),
            match status_id {
                Some(id) => issue.field_values@.contains_key("status_id"@) && issue.field_values@["status_id"@] == id@,
                None => !issue.field_values@.contains_key("status_id"@),
            },
        decreases data.columns.len() - i,
    {
        if column_contains_issue(&data.columns[i], issue, status_id) {
            return i;
        }
        i = i + 1;
    }
    0
}
/// Whether the issue under `key` exists and passes the search.
pub open spec fn key_matches(data: BoardData, key: Seq<char>, search: Seq<char>) -> bool {
    match issue_index(data.issues@, key) {
        Some(j) => issue_matches_search(data.issues@[j], search),
        None => false,
    }
}

/// Whether the issue under `key` exists, sits in `column` and passes the search.
pub open spec fn key_in_cell(data: BoardData, key: Seq<char>, column: int, search: Seq<char>) -> bool {
    match issue_index(data.issues@, key) {
        Some(j) => issue_column_spec(data.columns@, data.issues@[j]) == column
            && issue_matches_search(data.issues@[j], search),
        None => false,
    }
}

/// The keys of a lane that show in `column`, in lane order.
pub open spec fn cell_keys(data: BoardData, keys: Seq<Seq<char>>, column: int, search: Seq<char>) -> Seq<Seq<char>>
    decreases keys.len(),
{
    if keys.len() == 0 {
        Seq::empty()
    } else {
        let before = cell_keys(data, keys.drop_last(), column, search);
        if key_in_cell(data, keys.last(), column, search) {
            before.push(keys.last())
        } else {
            before
        }
    }
}

/// Whether any key of a lane has an issue that passes the search.
pub open spec fn lane_has_match(data: BoardData, keys: Seq<Seq<char>>, search: Seq<char>) -> bool {
    exists|k: int| 0 <= k < keys.len() && key_matches(data, #[trigger] keys[k], search)
}

/// The keys of `lane` whose issues show in `column`.
fn lane_column_keys(data: &BoardData, lane_keys: &Vec<String>, column: usize, search: &str, needle: &Vec<char>) -> (r: Vec<String>)
    requires
        needle@ == ascii_lower_seq(trim(search@)),
    ensures
        id_views(r@) == cell_keys(*data, id_views(lane_keys@), column as int, search@),
{
    let mut out: Vec<String> = Vec::new();
    let mut i: usize = 0;
    while i < lane_keys.len()
        invariant
            i <= lane_keys.len(),
            needle@ == ascii_lower_seq(trim(search@)),
            id_views(out@) == cell_keys(*data, id_views(lane_keys@).take(i as int), column as int, search@),
        decreases lane_keys.len() - i,
    {
        assert(id_views(lane_keys@).take(i + 1).drop_last() =~= id_views(lane_keys@).take(i as int));
        let key = &lane_keys[i];
        let keep = match find_issue(&data.issues, key.as_str()) {
            Some(j) => board_issue_column(data, &data.issues[j]) == column && issue_matches(&data.issues[j], search, needle),
            None => false,
        };
        if keep {
            let ghost before = out@;
            out.push(key.clone());
            assert(id_views(out@) =~= id_views(before).push(key@));
        }
        i = i + 1;
    }
    assert(id_views(lane_keys@).take(i as int) =~= id_views(lane_keys@));
    out
}

fn lane_matches(data: &BoardData, lane_keys: &Vec<String>, search: &str, needle: &Vec<char>) -> (r: bool)
    requires
        needle@ == ascii_lower_seq(trim(search@)),
    ensures
        r == lane_has_match(*data, id_views(lane_keys@), search@),
{
    let mut i: usize = 0;
    while i < lane_keys.len()
        invariant
            i <= lane_keys.len(),
            needle@ == ascii_lower_seq(trim(search@)),
            forall|k: int| 0 <= k < i ==> !key_matches(*data, #[trigger] id_views(lane_keys@)[k], search@),
        decreases lane_keys.len() - i,
    {
        let found = match find_issue(&data.issues, lane_keys[i].as_str()) {
            Some(j) => issue_matches(&data.issues[j], search, needle),
            None => false,
        };
        assert(id_views(lane_keys@)[i as int] == lane_keys@[i as int]@);
        if found {
            return true;
        }
        i = i + 1;
    }
    false
}

/// A selectable position on the board: a card, an empty cell, or a lane header.
#[derive(Debug, Clone, PartialEq, Eq)]
struct BoardCell {
    lane: usize,
    column: usize,
    index: usize,
    key: String,
    group: String,
    is_group: bool,
}

#[verifier::ext_equal]
pub struct CellView {
    pub lane: nat,
    pub column: nat,
    pub index: nat,
    pub key: Seq<char>,
    pub group: Seq<char>,
    pub is_group: bool,
}

impl View for BoardCell {
    type V = CellView;

    closed spec fn view(&self) -> CellView {
        CellView {
            lane: self.lane as nat,
            column: self.column as nat,
            index: self.index as nat,
            key: self.key@,
            group: self.group@,
            is_group: self.is_group,
        }
    }
}

pub open spec fn cell_views(cells: Seq<BoardCell>) -> Seq<CellView> {
    cells.map_values(|c: BoardCell| c@)
}

/// The content of a swimlane.
#[verifier::ext_equal]
pub struct LaneView {
    pub id: Option<Seq<char>>,
    pub name: Seq<char>,
    pub keys: Seq<Seq<char>>,
}

pub open spec fn lane_view(lane: BoardSwimlaneSummary) -> LaneView {
    LaneView {
        id: match lane.id {
            Some(id) => Some(id@),
            None => None,
        },
        name: lane.name@,
        keys: id_views(lane.issue_keys@),
    }
}

pub open spec fn lane_views(lanes: Seq<BoardSwimlaneSummary>) -> Seq<LaneView> {
    lanes.map_values(|l: BoardSwimlaneSummary| lane_view(l))
}

/// The cells of one column of a lane: its cards, or one empty cell.
pub open spec fn column_cells(data: BoardData, lane: LaneView, li: nat, column: nat, search: Seq<char>) -> Seq<CellView> {
    let keys = cell_keys(data, lane.keys, column as int, search);
    if keys.len() == 0 {
        seq![CellView { lane: li, column, index: 0, key: empty_key_spec(lane.name, column), group: lane.name, is_group: false }]
    } else {
        Seq::new(keys.len(), |i: int| CellView { lane: li, column, index: i as nat, key: keys[i], group: lane.name, is_group: false })
    }
}

/// The cells of the first `n` columns of a lane.
pub open spec fn columns_cells(data: BoardData, lane: LaneView, li: nat, n: int, search: Seq<char>) -> Seq<CellView>
    decreases n,
{
    if n <= 0 {
        Seq::empty()
    } else {
        columns_cells(data, lane, li, n - 1, search) + column_cells(data, lane, li, (n - 1) as nat, search)
    }
}

/// The cells of a lane: its header when grouped and any issue passes the
/// search, then, unless the lane is collapsed, the cells of every column.
pub open spec fn lane_cells(data: BoardData, lane: LaneView, li: nat, search: Seq<char>, collapsed: Set<Seq<char>>, grouped: bool) -> Seq<CellView> {
    let header = if grouped && lane_has_match(data, lane.keys, search) {
        seq![CellView { lane: li, column: 0, index: 0, key: group_key_spec(lane.name), group: lane.name, is_group: true }]
    } else {
        Seq::empty()
    };
    if grouped && collapsed.contains(lane.name) {
        header
    } else {
        header + columns_cells(data, lane, li, data.columns@.len() as int, search)
    }
}

/// The selectable cells of the first `n` lanes, top to bottom.
pub open spec fn board_cells(data: BoardData, lanes: Seq<LaneView>, n: int, search: Seq<char>, collapsed: Set<Seq<char>>, grouped: bool) -> Seq<CellView>
    decreases n,
{
    if n <= 0 {
        Seq::empty()
    } else {
        board_cells(data, lanes, n - 1, search, collapsed, grouped) + lane_cells(data, lanes[n - 1], (n - 1) as nat, search, collapsed, grouped)
    }
}

/// Appends the cells of one column of a lane.
fn push_column_cells(out: &mut Vec<BoardCell>, data: &BoardData, lane: &BoardSwimlaneSummary, li: usize, column: usize, search: &str, needle: &Vec<char>)
    requires
        needle@ == ascii_lower_seq(trim(search@)),
    ensures
        cell_views(final(out)@) == cell_views(old(out)@) + column_cells(*data, lane_view(*lane), li as nat, column as nat, search@),
{
    let keys = lane_column_keys(data, &lane.issue_keys, column, search, needle);
    let ghost spec_keys = cell_keys(*data, id_views(lane.issue_keys@), column as int, search@);
    let ghost start = old(out)@;
    if keys.len() == 0 {
        let cell = BoardCell {
            lane: li,
            column,
            index: 0,
            key: board_empty_cell_key(lane.name.as_str(), column),
            group: lane.name.clone(),
            is_group: false,
        };
        out.push(cell);
        assert(cell_views(out@) =~= cell_views(start) + column_cells(*data, lane_view(*lane), li as nat, column as nat, search@));
        return;
    }
    let mut i: usize = 0;
    while i < keys.len()
        invariant
            i <= keys.len(),
            id_views(keys@) == spec_keys,
            spec_keys == cell_keys(*data, id_views(lane.issue_keys@), column as int, search@),
            keys.len() > 0,
            cell_views(out@) == cell_views(start) + column_cells(*data, lane_view(*lane), li as nat, column as nat, search@).take(i as int),
        decreases keys.len() - i,
    {
        let ghost before = out@;
        let ghost cc = column_cells(*data, lane_view(*lane), li as nat, column as nat, search@);
        let cell = BoardCell { lane: li, column, index: i, key: keys[i].clone(), group: lane.name.clone(), is_group: false };
        assert(id_views(keys@)[i as int] == keys@[i as int]@);
        assert(spec_keys.len() == keys.len());
        assert(cc.len() == keys.len());
        assert(cell@ == cc[i as int]);
        out.push(cell);
        assert(cell_views(out@) =~= cell_views(before).push(cell@));
        assert(cc.take(i + 1) =~= cc.take(i as int).push(cc[i as int]));
        assert(cell_views(out@) =~= cell_views(start) + column_cells(*data, lane_view(*lane), li as nat, column as nat, search@).take(i + 1));
        i = i + 1;
    }
    assert(column_cells(*data, lane_view(*lane), li as nat, column as nat, search@).take(i as int) =~= column_cells(*data, lane_view(*lane), li as nat, column as nat, search@));
}

/// Appends the cells of one lane.
fn push_lane_cells(out: &mut Vec<BoardCell>, data: &BoardData, lane: &BoardSwimlaneSummary, li: usize, search: &str, needle: &Vec<char>, collapsed: &IdSet, grouped: bool)
    requires
        needle@ == ascii_lower_seq(trim(search@)),
    ensures
        cell_views(final(out)@) == cell_views(old(out)@) + lane_cells(*data, lane_view(*lane), li as nat, search@, collapsed@, grouped),
{
    let ghost start = old(out)@;
    if grouped && lane_matches(data, &lane.issue_keys, search, needle) {
        out.push(BoardCell {
            lane: li,
            column: 0,
            index: 0,
            key: board_group_key(lane.name.as_str()),
            group: lane.name.clone(),
            is_group: true,
        });
    }
    let ghost header = if grouped && lane_has_match(*data, id_views(lane.issue_keys@), search@) {
        seq![CellView { lane: li as nat, column: 0, index: 0, key: group_key_spec(lane.name@), group: lane.name@, is_group: true }]
    } else {
        Seq::empty()
    };
    assert(cell_views(out@) =~= cell_views(start) + header);
    if grouped && collapsed.contains(lane.name.as_str()) {
        return;
    }
    let mut c: usize = 0;
    while c < data.columns.len()
        invariant
            c <= data.columns.len(),
            needle@ == ascii_lower_seq(trim(search@)),
            cell_views(out@) == cell_views(start) + header + columns_cells(*data, lane_view(*lane), li as nat, c as int, search@),
        decreases data.columns.len() - c,
    {
        let ghost before = out@;
        push_column_cells(out, data, lane, li, c, search, needle);
        c = c + 1;
        assert(cell_views(out@) =~= cell_views(start) + header + columns_cells(*data, lane_view(*lane), li as nat, c as int, search@));
    }
    assert(cell_views(out@) =~= cell_views(start) + lane_cells(*data, lane_view(*lane), li as nat, search@, collapsed@, grouped));
}

/// Every selectable cell of the board, top to bottom and left to right.
fn cells_for_lanes(data: &BoardData, lanes: &Vec<BoardSwimlaneSummary>, search: &str, collapsed: &IdSet, grouping: BoardGrouping) -> (r: Vec<BoardCell>)
    ensures
        cell_views(r@) == board_cells(*data, lane_views(lanes@), lanes@.len() as int, search@, collapsed@, grouping != BoardGrouping::Ungrouped),
{
    let needle = search_needle(search);
    let grouped = grouping.is_grouped();
    let mut out: Vec<BoardCell> = Vec::new();
    let mut li: usize = 0;
    assert(cell_views(out@) =~= Seq::empty());
    while li < lanes.len()
        invariant
            li <= lanes.len(),
            needle@ == ascii_lower_seq(trim(search@)),
            grouped == (grouping != BoardGrouping::Ungrouped),
            cell_views(out@) == board_cells(*data, lane_views(lanes@), li as int, search@, collapsed@, grouped),
        decreases lanes.len() - li,
    {
        push_lane_cells(&mut out, data, &lanes[li], li, search, &needle, collapsed, grouped);
        li = li + 1;
    }
    out
}
/// The field whose value names an issue's swimlane under a grouping by field.
pub open spec fn group_field(grouping: BoardGrouping) -> Seq<char> {
    match grouping {
        BoardGrouping::Assignee => "assignee"@,
        BoardGrouping::Epic => "epic_summary"@,
        _ => "parent"@,
    }
}

/// The swimlane an issue falls in, or `None` for the catch-all lane: the
/// trimmed value of the grouping's field, or for spaces the project key in
/// front of the issue key's first `-`.
pub open spec fn group_label_spec(grouping: BoardGrouping, issue: IssueSummary) -> Option<Seq<char>> {
    match grouping {
        BoardGrouping::Ungrouped => None,
        BoardGrouping::Spaces => {
            let key = issue.key@;
            let i = first_index_of(key, '-');
            if i < key.len() { Some(key.take(i)) } else { None }
        },
        _ => {
            let fields = issue.field_values@;
            let field = group_field(grouping);
            if fields.contains_key(field) && trim(fields[field]).len() > 0 {
                Some(trim(fields[field]))
            } else {
                None
            }
        },
    }
}

/// The name of the lane an issue is grouped into.
pub open spec fn lane_name_of(grouping: BoardGrouping, issue: IssueSummary) -> Seq<char> {
    match group_label_spec(grouping, issue) {
        Some(label) => label,
        None => grouping.catch_all_spec(),
    }
}

/// The keys of the issues in lane `name`, in issue order.
pub open spec fn keys_in_lane(grouping: BoardGrouping, issues: Seq<IssueSummary>, name: Seq<char>) -> Seq<Seq<char>>
    decreases issues.len(),
{
    if issues.len() == 0 {
        Seq::empty()
    } else {
        let before = keys_in_lane(grouping, issues.drop_last(), name);
        if lane_name_of(grouping, issues.last()) == name {
            before.push(issues.last().key@)
        } else {
            before
        }
    }
}

/// Code-point order of strings, as `str` compares them.
pub open spec fn chars_less(a: Seq<char>, b: Seq<char>) -> bool
    decreases a.len(),
{
    if a.len() == 0 {
        b.len() > 0
    } else if b.len() == 0 {
        false
    } else if a[0] != b[0] {
        (a[0] as int) < (b[0] as int)
    } else {
        chars_less(a.drop_first(), b.drop_first())
    }
}

proof fn lemma_chars_less_irreflexive(a: Seq<char>)
    ensures
        !chars_less(a, a),
    decreases a.len(),
{
    if a.len() > 0 {
        lemma_chars_less_irreflexive(a.drop_first());
    }
}

proof fn lemma_chars_less_transitive(a: Seq<char>, b: Seq<char>, c: Seq<char>)
    requires
        chars_less(a, b),
        chars_less(b, c),
    ensures
        chars_less(a, c),
    decreases a.len(),
{
    if a.len() > 0 && b.len() > 0 && c.len() > 0 && a[0] == b[0] && b[0] == c[0] {
        lemma_chars_less_transitive(a.drop_first(), b.drop_first(), c.drop_first());
    }
}

proof fn lemma_chars_less_total(a: Seq<char>, b: Seq<char>)
    requires
        a != b,
    ensures
        chars_less(a, b) || chars_less(b, a),
    decreases a.len(),
{
    if a.len() > 0 && b.len() > 0 && a[0] == b[0] {
        if a.drop_first() == b.drop_first() {
            assert(a =~= seq![a[0]] + a.drop_first());
            assert(b =~= seq![b[0]] + b.drop_first());
        }
        lemma_chars_less_total(a.drop_first(), b.drop_first());
    } else if a.len() == 0 && b.len() == 0 {
        assert(a =~= b);
    } else if a.len() > 0 && b.len() > 0 {
        assert((a[0] as int) != (b[0] as int));
    }
}

/// Whether some lane is named `name`.
pub open spec fn has_lane_named(lanes: Seq<LaneView>, name: Seq<char>) -> bool {
    exists|i: int| 0 <= i < lanes.len() && #[trigger] lanes[i].name == name
}

/// Whether some issue falls in lane `name`.
pub open spec fn some_issue_in_lane(grouping: BoardGrouping, issues: Seq<IssueSummary>, name: Seq<char>) -> bool {
    exists|j: int| 0 <= j < issues.len() && lane_name_of(grouping, #[trigger] issues[j]) == name
}

/// Lane order: ordinary lanes alphabetically, the catch-all lane last.
pub open spec fn lane_before(catch_all: Seq<char>, a: Seq<char>, b: Seq<char>) -> bool {
    a != catch_all && (b == catch_all || chars_less(a, b))
}

proof fn lemma_lane_before_order(catch_all: Seq<char>, a: Seq<char>, b: Seq<char>, c: Seq<char>)
    ensures
        !lane_before(catch_all, a, a),
        lane_before(catch_all, a, b) && lane_before(catch_all, b, c) ==> lane_before(catch_all, a, c),
        a != b ==> lane_before(catch_all, a, b) || lane_before(catch_all, b, a),
{
    lemma_chars_less_irreflexive(a);
    if lane_before(catch_all, a, b) && lane_before(catch_all, b, c) && c != catch_all {
        lemma_chars_less_transitive(a, b, c);
    }
    if a != b {
        lemma_chars_less_total(a, b);
    }
}

/// The lanes of a grouped board: one per lane name that some issue falls in,
/// ordinary lanes alphabetically and the catch-all last, each listing the
/// keys of its issues in issue order.
pub open spec fn grouped_lanes_ok(data: BoardData, grouping: BoardGrouping, lanes: Seq<LaneView>) -> bool {
    let catch_all = grouping.catch_all_spec();
    &&& forall|i: int, j: int| 0 <= i < j < lanes.len() ==> lane_before(catch_all, #[trigger] lanes[i].name, #[trigger] lanes[j].name)
    &&& forall|i: int| 0 <= i < lanes.len() ==> (#[trigger] lanes[i]).id is None
        && lanes[i].keys == keys_in_lane(grouping, data.issues@, lanes[i].name)
    &&& forall|name: Seq<char>| #![trigger has_lane_named(lanes, name)] #![trigger some_issue_in_lane(grouping, data.issues@, name)]
        has_lane_named(lanes, name) <==> some_issue_in_lane(grouping, data.issues@, name)
}

/// Two sequences sorted by the lane order with the same names have the same names in the same places.
proof fn lemma_sorted_names_unique(catch_all: Seq<char>, a: Seq<LaneView>, b: Seq<LaneView>)
    requires
        forall|i: int, j: int| 0 <= i < j < a.len() ==> lane_before(catch_all, #[trigger] a[i].name, #[trigger] a[j].name),
        forall|i: int, j: int| 0 <= i < j < b.len() ==> lane_before(catch_all, #[trigger] b[i].name, #[trigger] b[j].name),
        forall|name: Seq<char>| #![trigger has_lane_named(a, name)] #![trigger has_lane_named(b, name)]
            has_lane_named(a, name) <==> has_lane_named(b, name),
    ensures
        a.len() == b.len(),
        forall|i: int| 0 <= i < a.len() ==> #[trigger] a[i].name == b[i].name,
    decreases a.len() + b.len(),
{
    if a.len() == 0 {
        if b.len() > 0 {
            assert(has_lane_named(b, b[0].name));
        }
        return;
    }
    if b.len() == 0 {
        assert(has_lane_named(a, a[0].name));
        return;
    }
    // the first names are both the least name
    assert(has_lane_named(a, a[0].name));
    assert(has_lane_named(b, b[0].name));
    let ja = choose|i: int| 0 <= i < b.len() && #[trigger] b[i].name == a[0].name;
    let jb = choose|i: int| 0 <= i < a.len() && #[trigger] a[i].name == b[0].name;
    lemma_lane_before_order(catch_all, a[0].name, b[0].name, a[0].name);
    if a[0].name != b[0].name {
        assert(ja > 0 && jb > 0);
        assert(lane_before(catch_all, b[0].name, b[ja].name));
        assert(lane_before(catch_all, a[0].name, a[jb].name));
        assert(false);
    }
    let ra = a.drop_first();
    let rb = b.drop_first();
    assert forall|name: Seq<char>| has_lane_named(ra, name) implies has_lane_named(rb, name) by {
        let i = choose|i: int| 0 <= i < ra.len() && #[trigger] ra[i].name == name;
        assert(a[i + 1].name == name);
        lemma_lane_before_order(catch_all, a[0].name, name, name);
        assert(has_lane_named(a, name));
        let k = choose|k: int| 0 <= k < b.len() && #[trigger] b[k].name == name;
        if k == 0 {
            assert(lane_before(catch_all, a[0].name, a[i + 1].name));
            assert(false);
        }
        assert(rb[k - 1].name == name);
    }
    assert forall|name: Seq<char>| has_lane_named(rb, name) implies has_lane_named(ra, name) by {
        let i = choose|i: int| 0 <= i < rb.len() && #[trigger] rb[i].name == name;
        assert(b[i + 1].name == name);
        lemma_lane_before_order(catch_all, b[0].name, name, name);
        assert(has_lane_named(b, name));
        let k = choose|k: int| 0 <= k < a.len() && #[trigger] a[k].name == name;
        if k == 0 {
            assert(lane_before(catch_all, b[0].name, b[i + 1].name));
            assert(false);
        }
        assert(ra[k - 1].name == name);
    }
    assert forall|i: int, j: int| 0 <= i < j < ra.len() implies lane_before(catch_all, #[trigger] ra[i].name, #[trigger] ra[j].name) by {
        assert(ra[i] == a[i + 1] && ra[j] == a[j + 1]);
    }
    assert forall|i: int, j: int| 0 <= i < j < rb.len() implies lane_before(catch_all, #[trigger] rb[i].name, #[trigger] rb[j].name) by {
        assert(rb[i] == b[i + 1] && rb[j] == b[j + 1]);
    }
    lemma_sorted_names_unique(catch_all, ra, rb);
    assert forall|i: int| 0 <= i < a.len() implies #[trigger] a[i].name == b[i].name by {
        if i > 0 {
            assert(ra[i - 1].name == rb[i - 1].name);
        }
    }
}

/// The lanes of a grouped board are determined by the board and grouping.
pub proof fn lemma_grouped_lanes_unique(data: BoardData, grouping: BoardGrouping, a: Seq<LaneView>, b: Seq<LaneView>)
    requires
        grouped_lanes_ok(data, grouping, a),
        grouped_lanes_ok(data, grouping, b),
    ensures
        a == b,
{
    assert forall|name: Seq<char>| has_lane_named(a, name) <==> has_lane_named(b, name) by {
        assert(has_lane_named(a, name) <==> some_issue_in_lane(grouping, data.issues@, name));
        assert(has_lane_named(b, name) <==> some_issue_in_lane(grouping, data.issues@, name));
    }
    lemma_sorted_names_unique(grouping.catch_all_spec(), a, b);
    assert forall|i: int| 0 <= i < a.len() implies #[trigger] a[i] == b[i] by {
        assert(a[i].name == b[i].name);
    }
    assert(a =~= b);
}

/// The lanes the board shows under a grouping.
pub open spec fn board_lanes(data: BoardData, grouping: BoardGrouping) -> Seq<LaneView> {
    if grouping == BoardGrouping::Ungrouped {
        lane_views(data.swimlanes@)
    } else {
        choose|lanes: Seq<LaneView>| grouped_lanes_ok(data, grouping, lanes)
    }
}
/// A copy of a list of strings.
fn clone_strings(v: &Vec<String>) -> (r: Vec<String>)
    ensures
        r@ == v@,
{
    let mut out: Vec<String> = Vec::new();
    let mut i: usize = 0;
    while i < v.len()
        invariant
            i <= v.len(),
            out@ == v@.take(i as int),
        decreases v.len() - i,
    {
        out.push(v[i].clone());
        i = i + 1;
        assert(out@ =~= v@.take(i as int));
    }
    assert(v@.take(i as int) =~= v@);
    out
}

fn clone_lane(lane: &BoardSwimlaneSummary) -> (r: BoardSwimlaneSummary)
    ensures
        lane_view(r) == lane_view(*lane),
{
    let id = match &lane.id {
        Some(id) => Some(id.clone()),
        None => None,
    };
    BoardSwimlaneSummary { id, name: lane.name.clone(), issue_keys: clone_strings(&lane.issue_keys) }
}

/// The lane label an issue gets under a grouping, `None` for the catch-all.
fn group_label(grouping: BoardGrouping, issue: &IssueSummary) -> (r: Option<Vec<char>>)
    ensures
        match r {
            Some(label) => group_label_spec(grouping, *issue) == Some(label@),
            None => group_label_spec(grouping, *issue) is None,
        },
{
    match grouping {
        BoardGrouping::Ungrouped => None,
        BoardGrouping::Spaces => {
            let key = chars_of(issue.key.as_str());
            let dash = find_char(&key, 0, key.len(), '-');
            assert(key@.subrange(0, key.len() as int) =~= key@);
            if dash < key.len() {
                let mut prefix: Vec<char> = Vec::new();
                let mut i: usize = 0;
                while i < dash
                    invariant
                        i <= dash <= key.len(),
                        prefix@ == key@.take(i as int),
                    decreases dash - i,
                {
                    prefix.push(key[i]);
                    i = i + 1;
                    assert(prefix@ =~= key@.take(i as int));
                }
                Some(prefix)
            } else {
                None
            }
        },
        _ => {
            let field = match grouping {
                BoardGrouping::Assignee => "assignee",
                BoardGrouping::Epic => "epic_summary",
                _ => "parent",
            };
            assert(field@ == group_field(grouping));
            match issue.field_values.get(field) {
                Some(value) => {
                    let trimmed = trim_chars(&chars_of(value.as_str()));
                    if trimmed.len() > 0 {
                        Some(trimmed)
                    } else {
                        None
                    }
                },
                None => None,
            }
        },
    }
}

/// Code-point comparison of two strings.
fn chars_before(a: &Vec<char>, b: &Vec<char>) -> (r: bool)
    ensures
        r == chars_less(a@, b@),
{
    let mut i: usize = 0;
    assert(a@.skip(0) =~= a@ && b@.skip(0) =~= b@);
    while i < a.len() && i < b.len() && a[i] == b[i]
        invariant
            i <= a.len(),
            i <= b.len(),
            chars_less(a@, b@) == chars_less(a@.skip(i as int), b@.skip(i as int)),
        decreases a.len() - i,
    {
        assert(a@.skip(i as int).drop_first() =~= a@.skip(i + 1));
        assert(b@.skip(i as int).drop_first() =~= b@.skip(i + 1));
        i = i + 1;
    }
    if i == a.len() {
        assert(a@.skip(i as int).len() == 0);
        i < b.len()
    } else if i == b.len() {
        assert(b@.skip(i as int).len() == 0);
        false
    } else {
        assert(a@.skip(i as int)[0] == a@[i as int] && b@.skip(i as int)[0] == b@[i as int]);
        a[i] < b[i]
    }
}

fn lane_precedes(catch_all: &Vec<char>, a: &Vec<char>, b: &Vec<char>) -> (r: bool)
    ensures
        r == lane_before(catch_all@, a@, b@),
{
    !chars_eq(a, catch_all) && (chars_eq(b, catch_all) || chars_before(a, b))
}

/// A lane being gathered: its name and the keys of its issues so far.
struct LaneDraft {
    name: Vec<char>,
    keys: Vec<String>,
}

spec fn draft_views(drafts: Seq<LaneDraft>) -> Seq<LaneView> {
    drafts.map_values(|d: LaneDraft| LaneView { id: None, name: d.name@, keys: id_views(d.keys@) })
}

/// The invariant of gathering lanes from the first `n` issues.
spec fn drafts_ok(data: BoardData, grouping: BoardGrouping, lanes: Seq<LaneView>, n: int) -> bool {
    let catch_all = grouping.catch_all_spec();
    let issues = data.issues@.take(n);
    &&& forall|i: int, j: int| 0 <= i < j < lanes.len() ==> lane_before(catch_all, #[trigger] lanes[i].name, #[trigger] lanes[j].name)
    &&& forall|i: int| 0 <= i < lanes.len() ==> (#[trigger] lanes[i]).id is None
        && lanes[i].keys == keys_in_lane(grouping, issues, lanes[i].name)
    &&& forall|name: Seq<char>| #![trigger has_lane_named(lanes, name)] #![trigger some_issue_in_lane(grouping, issues, name)]
        has_lane_named(lanes, name) <==> some_issue_in_lane(grouping, issues, name)
}

/// The swimlanes of the board under a grouping: the board's own lanes when
/// ungrouped, else one lane per name, alphabetical with the catch-all last.
pub fn board_grouped_lanes(data: &BoardData, grouping: BoardGrouping) -> (r: Vec<BoardSwimlaneSummary>)
    ensures
        lane_views(r@) == board_lanes(*data, grouping),
{
    if !grouping.is_grouped() {
        let mut out: Vec<BoardSwimlaneSummary> = Vec::new();
        let mut i: usize = 0;
        while i < data.swimlanes.len()
            invariant
                i <= data.swimlanes.len(),
                lane_views(out@) == lane_views(data.swimlanes@).take(i as int),
            decreases data.swimlanes.len() - i,
        {
            let lane = clone_lane(&data.swimlanes[i]);
            let ghost before = out@;
            out.push(lane);
            assert(lane_views(out@) =~= lane_views(before).push(lane_view(data.swimlanes@[i as int])));
            i = i + 1;
            assert(lane_views(out@) =~= lane_views(data.swimlanes@).take(i as int));
        }
        assert(lane_views(data.swimlanes@).take(i as int) =~= lane_views(data.swimlanes@));
        return out;
    }
    let catch_all = chars_of(grouping.catch_all_label());
    let mut drafts: Vec<LaneDraft> = Vec::new();
    let mut n: usize = 0;
    assert(drafts_ok(*data, grouping, draft_views(drafts@), 0)) by {
        assert(draft_views(drafts@) =~= Seq::<LaneView>::empty());
        assert forall|name: Seq<char>| !some_issue_in_lane(grouping, data.issues@.take(0), name) by {}
    }
    while n < data.issues.len()
        invariant
            n <= data.issues.len(),
            catch_all@ == grouping.catch_all_spec(),
            drafts_ok(*data, grouping, draft_views(drafts@), n as int),
        decreases data.issues.len() - n,
    {
        let issue = &data.issues[n];
        let name = match group_label(grouping, issue) {
            Some(label) => label,
            None => chars_of(grouping.catch_all_label()),
        };
        assert(name@ == lane_name_of(grouping, data.issues@[n as int]));
        let ghost before = draft_views(drafts@);
        let mut p: usize = 0;
        while p < drafts.len() && lane_precedes(&catch_all, &drafts[p].name, &name)
            invariant
                p <= drafts.len(),
                before == draft_views(drafts@),
                catch_all@ == grouping.catch_all_spec(),
                forall|q: int| 0 <= q < p ==> lane_before(catch_all@, #[trigger] before[q].name, name@),
            decreases drafts.len() - p,
        {
            p = p + 1;
        }
        if p < drafts.len() && chars_eq(&drafts[p].name, &name) {
            let mut entry = drafts.remove(p);
            entry.keys.push(issue.key.clone());
            drafts.insert(p, entry);
            proof {
                assert(id_views(drafts@[p as int].keys@) =~= before[p as int].keys.push(issue.key@));
                assert(draft_views(drafts@) =~= drafts_add(before, p as int, name@, issue.key@));
                lemma_drafts_add(*data, grouping, before, n as int, p as int);
            }
        } else {
            let mut keys: Vec<String> = Vec::new();
            keys.push(issue.key.clone());
            let ghost key = issue.key@;
            let ghost lane_name = name@;
            proof {
                assert(id_views(keys@) =~= seq![key]);
            }
            drafts.insert(p, LaneDraft { name, keys });
            proof {
                assert(draft_views(drafts@) =~= drafts_add(before, p as int, lane_name, key));
                lemma_drafts_add(*data, grouping, before, n as int, p as int);
            }
        }
        n = n + 1;
    }
    assert(data.issues@.take(n as int) =~= data.issues@);
    let mut out: Vec<BoardSwimlaneSummary> = Vec::new();
    let ghost model = draft_views(drafts@);
    let mut i: usize = 0;
    while i < drafts.len()
        invariant
            i <= drafts.len(),
            model == draft_views(drafts@),
            lane_views(out@) == model.take(i as int),
        decreases drafts.len() - i,
    {
        let lane = BoardSwimlaneSummary {
            id: None,
            name: string_from_chars(&drafts[i].name),
            issue_keys: clone_strings(&drafts[i].keys),
        };
        let ghost before_out = out@;
        assert(lane_view(lane) =~= model[i as int]);
        out.push(lane);
        assert(lane_views(out@) =~= lane_views(before_out).push(model[i as int]));
        i = i + 1;
        assert(lane_views(out@) =~= model.take(i as int));
    }
    assert(model.take(i as int) =~= model);
    proof {
        assert(grouped_lanes_ok(*data, grouping, model));
        assert(grouped_lanes_ok(*data, grouping, board_lanes(*data, grouping)));
        lemma_grouped_lanes_unique(*data, grouping, model, board_lanes(*data, grouping));
    }
    out
}

proof fn lemma_keys_in_lane_empty(grouping: BoardGrouping, issues: Seq<IssueSummary>, name: Seq<char>)
    requires
        !some_issue_in_lane(grouping, issues, name),
    ensures
        keys_in_lane(grouping, issues, name) == Seq::<Seq<char>>::empty(),
    decreases issues.len(),
{
    if issues.len() > 0 {
        assert(!some_issue_in_lane(grouping, issues.drop_last(), name)) by {
            if some_issue_in_lane(grouping, issues.drop_last(), name) {
                let j = choose|j: int| 0 <= j < issues.drop_last().len() && lane_name_of(grouping, #[trigger] issues.drop_last()[j]) == name;
                assert(issues[j] == issues.drop_last()[j]);
            }
        }
        assert(lane_name_of(grouping, issues.last()) != name) by {
            if lane_name_of(grouping, issues.last()) == name {
                assert(lane_name_of(grouping, issues[issues.len() - 1]) == name);
            }
        }
        lemma_keys_in_lane_empty(grouping, issues.drop_last(), name);
    }
}
/// The lanes after placing an issue in lane `name` at position `p`: its key
/// joins the lane of that name there, or a new lane starts there.
spec fn drafts_add(before: Seq<LaneView>, p: int, name: Seq<char>, key: Seq<char>) -> Seq<LaneView> {
    if p < before.len() && before[p].name == name {
        before.update(p, LaneView { id: None, name, keys: before[p].keys.push(key) })
    } else {
        before.insert(p, LaneView { id: None, name, keys: seq![key] })
    }
}

/// Placing issue `n` before the first lane that does not precede its lane
/// keeps the lanes gathered from the issues so far in order.
proof fn lemma_drafts_add(data: BoardData, grouping: BoardGrouping, before: Seq<LaneView>, n: int, p: int)
    requires
        0 <= n < data.issues@.len(),
        drafts_ok(data, grouping, before, n),
        0 <= p <= before.len(),
        forall|q: int| 0 <= q < p ==> lane_before(grouping.catch_all_spec(), #[trigger] before[q].name, lane_name_of(grouping, data.issues@[n])),
        p < before.len() ==> !lane_before(grouping.catch_all_spec(), before[p].name, lane_name_of(grouping, data.issues@[n])),
    ensures
        drafts_ok(data, grouping, drafts_add(before, p, lane_name_of(grouping, data.issues@[n]), data.issues@[n].key@), n + 1),
{
    let catch_all = grouping.catch_all_spec();
    let issue = data.issues@[n];
    let name = lane_name_of(grouping, issue);
    let key = issue.key@;
    let longer = data.issues@.take(n + 1);
    let shorter = data.issues@.take(n);
    assert(longer.drop_last() =~= shorter);
    assert(longer.last() == issue);
    let after = drafts_add(before, p, name, key);
    assert forall|name2: Seq<char>| some_issue_in_lane(grouping, longer, name2) <==> (some_issue_in_lane(grouping, shorter, name2) || name2 == name) by {
        if some_issue_in_lane(grouping, longer, name2) {
            let j = choose|j: int| 0 <= j < longer.len() && lane_name_of(grouping, #[trigger] longer[j]) == name2;
            if j < n {
                assert(shorter[j] == longer[j]);
            }
        }
        if some_issue_in_lane(grouping, shorter, name2) {
            let j = choose|j: int| 0 <= j < shorter.len() && lane_name_of(grouping, #[trigger] shorter[j]) == name2;
            assert(longer[j] == shorter[j]);
        }
        if name2 == name {
            assert(lane_name_of(grouping, longer[n]) == name2);
        }
    }
    if p < before.len() && before[p].name == name {
        assert forall|name2: Seq<char>| has_lane_named(after, name2) <==> has_lane_named(before, name2) by {
            if has_lane_named(after, name2) {
                let i = choose|i: int| 0 <= i < after.len() && #[trigger] after[i].name == name2;
                assert(before[i].name == name2);
            }
            if has_lane_named(before, name2) {
                let i = choose|i: int| 0 <= i < before.len() && #[trigger] before[i].name == name2;
                assert(after[i].name == name2);
            }
        }
        assert(has_lane_named(before, name)) by {
            assert(before[p].name == name);
        }
        assert forall|i: int, j: int| 0 <= i < j < after.len() implies lane_before(catch_all, #[trigger] after[i].name, #[trigger] after[j].name) by {
            assert(after[i].name == before[i].name && after[j].name == before[j].name);
        }
        assert forall|i: int| 0 <= i < after.len() implies (#[trigger] after[i]).id is None
            && after[i].keys == keys_in_lane(grouping, longer, after[i].name) by {
            if i != p {
                lemma_lane_before_order(catch_all, before[i].name, before[i].name, before[i].name);
                if i < p {
                    assert(lane_before(catch_all, before[i].name, before[p].name));
                } else {
                    assert(lane_before(catch_all, before[p].name, before[i].name));
                }
                assert(before[i].name != name);
            }
        }
    } else {
        let fresh = LaneView { id: None, name, keys: seq![key] };
        assert(!has_lane_named(before, name)) by {
            if has_lane_named(before, name) {
                let q = choose|q: int| 0 <= q < before.len() && #[trigger] before[q].name == name;
                lemma_lane_before_order(catch_all, name, name, name);
                if q > p {
                    assert(lane_before(catch_all, before[p].name, before[q].name));
                }
            }
        }
        assert(keys_in_lane(grouping, shorter, name) =~= Seq::<Seq<char>>::empty()) by {
            lemma_keys_in_lane_empty(grouping, shorter, name);
        }
        if p < before.len() {
            lemma_lane_before_order(catch_all, before[p].name, name, name);
        }
        assert forall|i: int, j: int| 0 <= i < j < after.len() implies lane_before(catch_all, #[trigger] after[i].name, #[trigger] after[j].name) by {
            if i < p && j < p {
                assert(after[i] == before[i] && after[j] == before[j]);
            } else if i < p && j == p {
            } else if i < p && j > p {
                assert(after[j] == before[j - 1]);
            } else if i == p && j > p {
                assert(after[j] == before[j - 1]);
                if j - 1 > p {
                    lemma_lane_before_order(catch_all, name, before[p].name, before[j - 1].name);
                }
            } else {
                assert(after[i] == before[i - 1] && after[j] == before[j - 1]);
            }
        }
        assert forall|name2: Seq<char>| has_lane_named(after, name2) <==> (has_lane_named(before, name2) || name2 == name) by {
            if has_lane_named(after, name2) {
                let i = choose|i: int| 0 <= i < after.len() && #[trigger] after[i].name == name2;
                if i < p {
                    assert(before[i].name == name2);
                } else if i > p {
                    assert(before[i - 1].name == name2);
                }
            }
            if has_lane_named(before, name2) {
                let i = choose|i: int| 0 <= i < before.len() && #[trigger] before[i].name == name2;
                if i < p {
                    assert(after[i].name == name2);
                } else {
                    assert(after[i + 1].name == name2);
                }
            }
            if name2 == name {
                assert(after[p].name == name2);
            }
        }
        assert forall|i: int| 0 <= i < after.len() implies (#[trigger] after[i]).id is None
            && after[i].keys == keys_in_lane(grouping, longer, after[i].name) by {
            if i < p {
                assert(after[i] == before[i]);
                assert(before[i].name != name) by {
                    assert(has_lane_named(before, before[i].name));
                }
            } else if i > p {
                assert(after[i] == before[i - 1]);
                assert(before[i - 1].name != name) by {
                    assert(has_lane_named(before, before[i - 1].name));
                }
            } else {
                assert(keys_in_lane(grouping, longer, name) =~= seq![key]);
            }
        }
    }
}

/// The first position from `p` on whose lane does not precede lane `name`.
spec fn insert_point(catch_all: Seq<char>, lanes: Seq<LaneView>, name: Seq<char>, p: int) -> int
    decreases lanes.len() - p,
{
    if p < 0 || p >= lanes.len() || !lane_before(catch_all, lanes[p].name, name) {
        p
    } else {
        insert_point(catch_all, lanes, name, p + 1)
    }
}

proof fn lemma_insert_point(catch_all: Seq<char>, lanes: Seq<LaneView>, name: Seq<char>, p: int)
    requires
        0 <= p <= lanes.len(),
        forall|q: int| 0 <= q < p ==> lane_before(catch_all, #[trigger] lanes[q].name, name),
    ensures
        p <= insert_point(catch_all, lanes, name, p) <= lanes.len(),
        forall|q: int| 0 <= q < insert_point(catch_all, lanes, name, p) ==> lane_before(catch_all, #[trigger] lanes[q].name, name),
        insert_point(catch_all, lanes, name, p) < lanes.len()
            ==> !lane_before(catch_all, lanes[insert_point(catch_all, lanes, name, p)].name, name),
    decreases lanes.len() - p,
{
    if p < lanes.len() && lane_before(catch_all, lanes[p].name, name) {
        lemma_insert_point(catch_all, lanes, name, p + 1);
    }
}

proof fn lemma_drafts_exist(data: BoardData, grouping: BoardGrouping, n: int)
    requires
        0 <= n <= data.issues@.len(),
    ensures
        exists|lanes: Seq<LaneView>| drafts_ok(data, grouping, lanes, n),
    decreases n,
{
    if n == 0 {
        let lanes = Seq::<LaneView>::empty();
        assert forall|name: Seq<char>| !some_issue_in_lane(grouping, data.issues@.take(0), name) by {}
        assert(drafts_ok(data, grouping, lanes, 0));
    } else {
        let m = n - 1;
        lemma_drafts_exist(data, grouping, m);
        let before = choose|lanes: Seq<LaneView>| drafts_ok(data, grouping, lanes, m);
        let name = lane_name_of(grouping, data.issues@[m]);
        lemma_insert_point(grouping.catch_all_spec(), before, name, 0);
        let p = insert_point(grouping.catch_all_spec(), before, name, 0);
        lemma_drafts_add(data, grouping, before, m, p);
    }
}

/// Every board has lanes under every grouping, so `board_lanes` of a grouped
/// board is the sorted list of its lanes.
pub proof fn lemma_grouped_lanes_exist(data: BoardData, grouping: BoardGrouping)
    ensures
        exists|lanes: Seq<LaneView>| grouped_lanes_ok(data, grouping, lanes),
{
    let n = data.issues@.len() as int;
    lemma_drafts_exist(data, grouping, n);
    let lanes = choose|lanes: Seq<LaneView>| drafts_ok(data, grouping, lanes, n);
    assert(data.issues@.take(n) =~= data.issues@);
    assert(grouped_lanes_ok(data, grouping, lanes));
}

/// The key to select when entering `column` of a lane: its first or last
/// card, or the empty cell when the column has none.
pub open spec fn lane_column_entry(data: BoardData, lane: LaneView, column: int, search: Seq<char>, take_last: bool) -> Seq<char> {
    let keys = cell_keys(data, lane.keys, column, search);
    if keys.len() == 0 {
        empty_key_spec(lane.name, column as nat)
    } else if take_last {
        keys.last()
    } else {
        keys[0]
    }
}

fn board_lane_column_entry(data: &BoardData, lane: &BoardSwimlaneSummary, column: usize, search: &str, needle: &Vec<char>, take_last: bool) -> (r: String)
    requires
        needle@ == ascii_lower_seq(trim(search@)),
    ensures
        r@ == lane_column_entry(*data, lane_view(*lane), column as int, search@, take_last),
{
    let keys = lane_column_keys(data, &lane.issue_keys, column, search, needle);
    assert(id_views(keys@).len() == keys.len());
    if keys.len() == 0 {
        board_empty_cell_key(lane.name.as_str(), column)
    } else if take_last {
        assert(id_views(keys@).last() == keys@[keys.len() - 1]@);
        keys[keys.len() - 1].clone()
    } else {
        assert(id_views(keys@)[0] == keys@[0]@);
        keys[0].clone()
    }
}

/// Where a left (`-1`) or right (`1`) step lands: the card at the same height
/// in the next column, or that column's empty cell; nothing past the edge.
pub open spec fn horizontal_target(data: BoardData, lanes: Seq<LaneView>, sel: CellView, dir: int, search: Seq<char>) -> Option<Seq<char>> {
    let column = sel.column + dir;
    if column < 0 || column >= data.columns@.len() {
        None
    } else {
        let lane = lanes[sel.lane as int];
        let keys = cell_keys(data, lane.keys, column, search);
        if keys.len() == 0 {
            Some(empty_key_spec(lane.name, column as nat))
        } else {
            Some(keys[if sel.index < keys.len() - 1 { sel.index as int } else { keys.len() - 1 }])
        }
    }
}

fn board_horizontal_target(data: &BoardData, lanes: &Vec<BoardSwimlaneSummary>, sel: &BoardCell, right: bool, search: &str, needle: &Vec<char>) -> (r: Option<String>)
    requires
        needle@ == ascii_lower_seq(trim(search@)),
        sel.lane < lanes.len(),
    ensures
        opt_str_view(r) == horizontal_target(*data, lane_views(lanes@), sel@, if right { 1 } else { -1 }, search@),
{
    let column: usize = if right {
        if sel.column >= data.columns.len() || sel.column + 1 >= data.columns.len() {
            return None;
        }
        sel.column + 1
    } else {
        if sel.column == 0 || sel.column - 1 >= data.columns.len() {
            return None;
        }
        sel.column - 1
    };
    let lane = &lanes[sel.lane];
    let keys = lane_column_keys(data, &lane.issue_keys, column, search, needle);
    assert(id_views(keys@).len() == keys.len());
    if keys.len() == 0 {
        Some(board_empty_cell_key(lane.name.as_str(), column))
    } else {
        let at = if sel.index < keys.len() - 1 { sel.index } else { keys.len() - 1 };
        assert(id_views(keys@)[at as int] == keys@[at as int]@);
        Some(keys[at].clone())
    }
}

pub open spec fn opt_str_view(o: Option<String>) -> Option<Seq<char>> {
    match o {
        Some(s) => Some(s@),
        None => None,
    }
}

/// Position of the first occurrence of `key` in `keys`, looking from `i` on.
pub open spec fn position_from(keys: Seq<Seq<char>>, key: Seq<char>, i: int) -> Option<int>
    decreases keys.len() - i,
{
    if i < 0 || i >= keys.len() {
        None
    } else if keys[i] == key {
        Some(i)
    } else {
        position_from(keys, key, i + 1)
    }
}

fn key_position(keys: &Vec<String>, key: &String) -> (r: Option<usize>)
    ensures
        match r {
            Some(p) => position_from(id_views(keys@), key@, 0) == Some(p as int) && p < keys.len(),
            None => position_from(id_views(keys@), key@, 0) is None,
        },
{
    let mut i: usize = 0;
    while i < keys.len()
        invariant
            i <= keys.len(),
            position_from(id_views(keys@), key@, 0) == position_from(id_views(keys@), key@, i as int),
        decreases keys.len() - i,
    {
        assert(id_views(keys@)[i as int] == keys@[i as int]@);
        if crate::text::str_eq(keys[i].as_str(), key.as_str()) {
            return Some(i);
        }
        i = i + 1;
    }
    None
}

/// Where one step up or down lands: the neighbouring card in the column;
/// past the top of a lane its header when grouped; from a header into the
/// preferred column of the lane, or of the lane above; a collapsed lane is
/// passed header to header.
pub open spec fn vertical_target(data: BoardData, lanes: Seq<LaneView>, collapsed: Set<Seq<char>>, grouped: bool, sel: CellView, preferred: int, search: Seq<char>, up: bool) -> Option<Seq<char>> {
    if up {
        if sel.is_group {
            if sel.lane == 0 {
                None
            } else {
                let prev = lanes[sel.lane - 1];
                if grouped && collapsed.contains(prev.name) {
                    Some(group_key_spec(prev.name))
                } else {
                    Some(lane_column_entry(data, prev, preferred, search, true))
                }
            }
        } else {
            let keys = cell_keys(data, lanes[sel.lane as int].keys, sel.column as int, search);
            match position_from(keys, sel.key, 0) {
                Some(p) if p >= 1 => Some(keys[p - 1]),
                _ => if grouped { Some(group_key_spec(sel.group)) } else { None },
            }
        }
    } else if sel.is_group {
        if grouped && collapsed.contains(sel.group) {
            if sel.lane + 1 < lanes.len() { Some(group_key_spec(lanes[sel.lane + 1 as int].name)) } else { None }
        } else {
            Some(lane_column_entry(data, lanes[sel.lane as int], preferred, search, false))
        }
    } else {
        let keys = cell_keys(data, lanes[sel.lane as int].keys, sel.column as int, search);
        match position_from(keys, sel.key, 0) {
            Some(p) if p + 1 < keys.len() => Some(keys[p + 1]),
            _ => if grouped && sel.lane + 1 < lanes.len() {
                Some(group_key_spec(lanes[sel.lane + 1 as int].name))
            } else {
                None
            },
        }
    }
}

fn board_vertical_target(data: &BoardData, lanes: &Vec<BoardSwimlaneSummary>, collapsed: &IdSet, grouped: bool, sel: &BoardCell, preferred: usize, search: &str, needle: &Vec<char>, up: bool) -> (r: Option<String>)
    requires
        needle@ == ascii_lower_seq(trim(search@)),
        sel.lane < lanes.len(),
    ensures
        opt_str_view(r) == vertical_target(*data, lane_views(lanes@), collapsed@, grouped, sel@, preferred as int, search@, up),
{
    if up {
        if sel.is_group {
            if sel.lane == 0 {
                return None;
            }
            let prev = &lanes[sel.lane - 1];
            if grouped && collapsed.contains(prev.name.as_str()) {
                Some(board_group_key(prev.name.as_str()))
            } else {
                Some(board_lane_column_entry(data, prev, preferred, search, needle, true))
            }
        } else {
            let keys = lane_column_keys(data, &lanes[sel.lane].issue_keys, sel.column, search, needle);
            match key_position(&keys, &sel.key) {
                Some(p) => {
                    if p >= 1 {
                        assert(id_views(keys@)[p - 1] == keys@[p - 1]@);
                        return Some(keys[p - 1].clone());
                    }
                },
                None => {},
            }
            if grouped {
                Some(board_group_key(sel.group.as_str()))
            } else {
                None
            }
        }
    } else if sel.is_group {
        if grouped && collapsed.contains(sel.group.as_str()) {
            if sel.lane + 1 < lanes.len() {
                Some(board_group_key(lanes[sel.lane + 1].name.as_str()))
            } else {
                None
            }
        } else {
            Some(board_lane_column_entry(data, &lanes[sel.lane], preferred, search, needle, false))
        }
    } else {
        let keys = lane_column_keys(data, &lanes[sel.lane].issue_keys, sel.column, search, needle);
        assert(id_views(keys@).len() == keys.len());
        match key_position(&keys, &sel.key) {
            Some(p) => {
                if p + 1 < keys.len() {
                    assert(id_views(keys@)[p + 1] == keys@[p + 1]@);
                    return Some(keys[p + 1].clone());
                }
            },
            None => {},
        }
        if grouped && sel.lane + 1 < lanes.len() {
            Some(board_group_key(lanes[sel.lane + 1].name.as_str()))
        } else {
            None
        }
    }
}
/// Position of the first cell whose key is `key`, looking from `i` on.
pub open spec fn cell_index_from(cells: Seq<CellView>, key: Seq<char>, i: int) -> Option<int>
    decreases cells.len() - i,
{
    if i < 0 || i >= cells.len() {
        None
    } else if cells[i].key == key {
        Some(i)
    } else {
        cell_index_from(cells, key, i + 1)
    }
}

pub open spec fn cell_index(cells: Seq<CellView>, key: Seq<char>) -> Option<int> {
    cell_index_from(cells, key, 0)
}

proof fn lemma_cell_index_from(cells: Seq<CellView>, key: Seq<char>, i: int)
    requires
        0 <= i,
    ensures
        match cell_index_from(cells, key, i) {
            Some(j) => i <= j < cells.len() && cells[j].key == key,
            None => true,
        },
    decreases cells.len() - i,
{
    if i < cells.len() && cells[i].key != key {
        lemma_cell_index_from(cells, key, i + 1);
    }
}

fn cell_position(cells: &Vec<BoardCell>, key: &str) -> (r: Option<usize>)
    ensures
        match r {
            Some(j) => cell_index(cell_views(cells@), key@) == Some(j as int) && j < cells.len(),
            None => cell_index(cell_views(cells@), key@) is None,
        },
{
    let mut i: usize = 0;
    while i < cells.len()
        invariant
            i <= cells.len(),
            cell_index(cell_views(cells@), key@) == cell_index_from(cell_views(cells@), key@, i as int),
        decreases cells.len() - i,
    {
        assert(cell_views(cells@)[i as int] == cells@[i as int]@);
        if crate::text::str_eq(cells[i].key.as_str(), key) {
            return Some(i);
        }
        i = i + 1;
    }
    None
}

/// Every cell of the board belongs to one of its lanes.
proof fn lemma_board_cells_lanes(data: BoardData, lanes: Seq<LaneView>, n: int, search: Seq<char>, collapsed: Set<Seq<char>>, grouped: bool)
    requires
        0 <= n <= lanes.len(),
    ensures
        forall|k: int| 0 <= k < board_cells(data, lanes, n, search, collapsed, grouped).len() ==>
            (#[trigger] board_cells(data, lanes, n, search, collapsed, grouped)[k]).lane < n,
    decreases n,
{
    if n > 0 {
        lemma_board_cells_lanes(data, lanes, n - 1, search, collapsed, grouped);
        let before = board_cells(data, lanes, n - 1, search, collapsed, grouped);
        let lane = lane_cells(data, lanes[n - 1], (n - 1) as nat, search, collapsed, grouped);
        assert forall|k: int| 0 <= k < lane.len() implies (#[trigger] lane[k]).lane == n - 1 by {
            lemma_lane_cells_lane(data, lanes[n - 1], (n - 1) as nat, search, collapsed, grouped, k);
        }
        assert forall|k: int| 0 <= k < (before + lane).len() implies (#[trigger] (before + lane)[k]).lane < n by {
            if k >= before.len() {
                assert((before + lane)[k] == lane[k - before.len()]);
            } else {
                assert((before + lane)[k] == before[k]);
            }
        }
    }
}

proof fn lemma_lane_cells_lane(data: BoardData, lane: LaneView, li: nat, search: Seq<char>, collapsed: Set<Seq<char>>, grouped: bool, k: int)
    requires
        0 <= k < lane_cells(data, lane, li, search, collapsed, grouped).len(),
    ensures
        lane_cells(data, lane, li, search, collapsed, grouped)[k].lane == li,
{
    let header = if grouped && lane_has_match(data, lane.keys, search) {
        seq![CellView { lane: li, column: 0, index: 0, key: group_key_spec(lane.name), group: lane.name, is_group: true }]
    } else {
        Seq::empty()
    };
    let body = columns_cells(data, lane, li, data.columns@.len() as int, search);
    if !(grouped && collapsed.contains(lane.name)) && k >= header.len() {
        lemma_columns_cells_lane(data, lane, li, data.columns@.len() as int, search);
        assert((header + body)[k] == body[k - header.len()]);
    }
}

proof fn lemma_columns_cells_lane(data: BoardData, lane: LaneView, li: nat, n: int, search: Seq<char>)
    ensures
        forall|k: int| 0 <= k < columns_cells(data, lane, li, n, search).len() ==> (#[trigger] columns_cells(data, lane, li, n, search)[k]).lane == li,
    decreases n,
{
    if n > 0 {
        lemma_columns_cells_lane(data, lane, li, n - 1, search);
        let a = columns_cells(data, lane, li, n - 1, search);
        let b = column_cells(data, lane, li, (n - 1) as nat, search);
        assert forall|k: int| 0 <= k < (a + b).len() implies (#[trigger] (a + b)[k]).lane == li by {
            if k >= a.len() {
                assert((a + b)[k] == b[k - a.len()]);
            } else {
                assert((a + b)[k] == a[k]);
            }
        }
    }
}

/// A half-page jump: step up or down repeatedly, passing through lane
/// headers, until four cards or empty cells have been passed or no step is
/// left; lands on the last card or empty cell reached.
pub open spec fn page_walk(data: BoardData, lanes: Seq<LaneView>, cells: Seq<CellView>, collapsed: Set<Seq<char>>, grouped: bool, preferred: int, search: Seq<char>, up: bool, current: Seq<char>, landed: nat, result: Option<Seq<char>>, fuel: nat) -> Option<Seq<char>>
    decreases fuel,
{
    if fuel == 0 {
        result
    } else {
        match cell_index(cells, current) {
            None => result,
            Some(ci) => match vertical_target(data, lanes, collapsed, grouped, cells[ci], preferred, search, up) {
                None => result,
                Some(next) => if next == current {
                    result
                } else {
                    let on_group = match cell_index(cells, next) {
                        Some(k) => cells[k].is_group,
                        None => false,
                    };
                    if on_group {
                        page_walk(data, lanes, cells, collapsed, grouped, preferred, search, up, next, landed, result, (fuel - 1) as nat)
                    } else if landed + 1 >= 4 {
                        Some(next)
                    } else {
                        page_walk(data, lanes, cells, collapsed, grouped, preferred, search, up, next, landed + 1, Some(next), (fuel - 1) as nat)
                    }
                },
            },
        }
    }
}

/// Steps allowed to a half-page jump: one per cell and four more.
pub open spec fn page_fuel(cells: Seq<CellView>) -> nat {
    if cells.len() + 4 > usize::MAX { usize::MAX as nat } else { (cells.len() + 4) as nat }
}

fn board_page_vertical(data: &BoardData, lanes: &Vec<BoardSwimlaneSummary>, cells: &Vec<BoardCell>, collapsed: &IdSet, grouped: bool, sel: &BoardCell, preferred: usize, search: &str, needle: &Vec<char>, up: bool) -> (r: Option<String>)
    requires
        needle@ == ascii_lower_seq(trim(search@)),
        forall|k: int| 0 <= k < cells.len() ==> (#[trigger] cells@[k]).lane < lanes.len(),
    ensures
        opt_str_view(r) == page_walk(*data, lane_views(lanes@), cell_views(cells@), collapsed@, grouped, preferred as int, search@, up, sel.key@, 0, None, page_fuel(cell_views(cells@))),
{
    let limit: usize = if cells.len() > usize::MAX - 4 { usize::MAX } else { cells.len() + 4 };
    let ghost cv = cell_views(cells@);
    let ghost lv = lane_views(lanes@);
    let ghost goal = page_walk(*data, lv, cv, collapsed@, grouped, preferred as int, search@, up, sel.key@, 0, None, page_fuel(cv));
    let mut current = sel.key.clone();
    let mut landed: usize = 0;
    let mut result: Option<String> = None;
    let mut step: usize = 0;
    while step < limit
        invariant
            limit == page_fuel(cv),
            goal == page_walk(*data, lv, cv, collapsed@, grouped, preferred as int, search@, up, sel.key@, 0, None, page_fuel(cv)),
            cv == cell_views(cells@),
            lv == lane_views(lanes@),
            needle@ == ascii_lower_seq(trim(search@)),
            forall|k: int| 0 <= k < cells.len() ==> (#[trigger] cells@[k]).lane < lanes.len(),
            step <= limit,
            landed < 4,
            goal == page_walk(*data, lv, cv, collapsed@, grouped, preferred as int, search@, up, current@, landed as nat, opt_str_view(result), (limit - step) as nat),
        decreases limit - step,
    {
        let ghost fuel = (limit - step) as nat;
        let ci = match cell_position(cells, current.as_str()) {
            Some(ci) => ci,
            None => {
                assert(cell_index(cv, current@) is None);
                assert(goal == opt_str_view(result));
                return result;
            },
        };
        assert(cv[ci as int] == cells@[ci as int]@);
        let next = match board_vertical_target(data, lanes, collapsed, grouped, &cells[ci], preferred, search, needle, up) {
            Some(next) => next,
            None => {
                assert(goal == opt_str_view(result));
                return result;
            },
        };
        if crate::text::str_eq(next.as_str(), current.as_str()) {
            return result;
        }
        let on_group = match cell_position(cells, next.as_str()) {
            Some(k) => {
                assert(cv[k as int] == cells@[k as int]@);
                cells[k].is_group
            },
            None => false,
        };
        current = next;
        if !on_group {
            result = Some(current.clone());
            landed = landed + 1;
            if landed >= 4 {
                return result;
            }
        }
        step = step + 1;
    }
    result
}

/// The first card or empty cell in `column`, looking from `i` on.
pub open spec fn first_in_column(cells: Seq<CellView>, column: int, i: int) -> Option<int>
    decreases cells.len() - i,
{
    if i < 0 || i >= cells.len() {
        None
    } else if !cells[i].is_group && cells[i].column == column {
        Some(i)
    } else {
        first_in_column(cells, column, i + 1)
    }
}

/// The last card or empty cell in `column` among the first `n` cells.
pub open spec fn last_in_column(cells: Seq<CellView>, column: int, n: int) -> Option<int>
    decreases n,
{
    if n <= 0 || n > cells.len() {
        None
    } else if !cells[n - 1].is_group && cells[n - 1].column == column {
        Some(n - 1)
    } else {
        last_in_column(cells, column, n - 1)
    }
}

/// The key of the cell at a position, if there is one.
pub open spec fn key_at(cells: Seq<CellView>, at: Option<int>) -> Option<Seq<char>> {
    match at {
        Some(k) => Some(cells[k].key),
        None => None,
    }
}

fn column_end_key(cells: &Vec<BoardCell>, column: usize, last: bool) -> (r: Option<String>)
    ensures
        last ==> opt_str_view(r) == key_at(cell_views(cells@), last_in_column(cell_views(cells@), column as int, cells.len() as int)),
        !last ==> opt_str_view(r) == key_at(cell_views(cells@), first_in_column(cell_views(cells@), column as int, 0)),
{
    let ghost cv = cell_views(cells@);
    if last {
        let mut n = cells.len();
        while n > 0
            invariant
                last,
                n <= cells.len(),
                cv == cell_views(cells@),
                last_in_column(cv, column as int, cells.len() as int) == last_in_column(cv, column as int, n as int),
            decreases n,
        {
            assert(cv[n - 1] == cells@[n - 1]@);
            if !cells[n - 1].is_group && cells[n - 1].column == column {
                assert(last_in_column(cv, column as int, n as int) == Some(n - 1));
                let key = cells[n - 1].key.clone();
                assert(key@ == cv[n - 1].key);
                return Some(key);
            }
            n = n - 1;
        }
        None
    } else {
        let mut i: usize = 0;
        while i < cells.len()
            invariant
                !last,
                i <= cells.len(),
                cv == cell_views(cells@),
                first_in_column(cv, column as int, 0) == first_in_column(cv, column as int, i as int),
            decreases cells.len() - i,
        {
            assert(cv[i as int] == cells@[i as int]@);
            if !cells[i].is_group && cells[i].column == column {
                assert(first_in_column(cv, column as int, i as int) == Some(i as int));
                let key = cells[i].key.clone();
                assert(key@ == cv[i as int].key);
                return Some(key);
            }
            i = i + 1;
        }
        None
    }
}
/// Whether a lane has a card in some column.
pub open spec fn lane_has_cards(data: BoardData, lane: LaneView, search: Seq<char>) -> bool {
    exists|c: int| 0 <= c < data.columns@.len() && (#[trigger] cell_keys(data, lane.keys, c, search)).len() > 0
}

/// The names of the lanes that have a card.
pub open spec fn lanes_with_cards(data: BoardData, lanes: Seq<LaneView>, search: Seq<char>) -> Set<Seq<char>> {
    Set::new(|name: Seq<char>| exists|i: int| 0 <= i < lanes.len() && (#[trigger] lanes[i]).name == name && lane_has_cards(data, lanes[i], search))
}

/// What an action does to the collapsed lanes, and the key it moves the
/// selection to (if any), from the selected cell `sel`.
pub open spec fn board_move(data: BoardData, lanes: Seq<LaneView>, cells: Seq<CellView>, collapsed: Set<Seq<char>>, grouped: bool, sel: CellView, preferred: int, search: Seq<char>, action: BoardAction) -> (Set<Seq<char>>, Option<Seq<char>>) {
    match action {
        BoardAction::MoveLeft => if sel.is_group {
            (collapsed.insert(sel.group), None)
        } else {
            (collapsed, match horizontal_target(data, lanes, sel, -1, search) {
                Some(k) => Some(k),
                None => if grouped { Some(group_key_spec(sel.group)) } else { None },
            })
        },
        BoardAction::MoveRight => if sel.is_group {
            (collapsed.remove(sel.group), Some(lane_column_entry(data, lanes[sel.lane as int], preferred, search, false)))
        } else {
            (collapsed, horizontal_target(data, lanes, sel, 1, search))
        },
        BoardAction::ToggleCollapse => if sel.is_group {
            (if collapsed.contains(sel.group) { collapsed.remove(sel.group) } else { collapsed.insert(sel.group) }, None)
        } else {
            (collapsed, None)
        },
        BoardAction::MoveUp => (collapsed, vertical_target(data, lanes, collapsed, grouped, sel, preferred, search, true)),
        BoardAction::MoveDown => (collapsed, vertical_target(data, lanes, collapsed, grouped, sel, preferred, search, false)),
        BoardAction::HalfPageUp => (collapsed, page_walk(data, lanes, cells, collapsed, grouped, preferred, search, true, sel.key, 0, None, page_fuel(cells))),
        BoardAction::HalfPageDown => (collapsed, page_walk(data, lanes, cells, collapsed, grouped, preferred, search, false, sel.key, 0, None, page_fuel(cells))),
        BoardAction::GoToStart => (collapsed, key_at(cells, first_in_column(cells, preferred, 0))),
        BoardAction::GoToEnd => (collapsed, key_at(cells, last_in_column(cells, preferred, cells.len() as int))),
        BoardAction::GoToStartPrefix => (collapsed, None),
        BoardAction::CollapseAllGroups => (collapsed.union(lanes_with_cards(data, lanes, search)), Some(group_key_spec(sel.group))),
        BoardAction::ExpandAllGroups => (Set::empty(), None),
    }
}

/// The board's state as the contracts see it.
#[verifier::ext_equal]
pub struct BoardView {
    pub data: Option<BoardData>,
    pub error: Option<Seq<char>>,
    pub selected: Option<Seq<char>>,
    pub preferred_column: nat,
    pub collapsed: Set<Seq<char>>,
    pub scroll: nat,
    pub col_scroll: nat,
    pub manual_v_scroll: bool,
    pub manual_h_scroll: bool,
    pub manual_h_offset: nat,
}

/// What a navigation action does to the board, given the search text and
/// the grouping in force. Keyboard navigation always returns both axes to
/// following the selection.
pub open spec fn board_step(v: BoardView, action: BoardAction, search: Seq<char>, grouping: BoardGrouping) -> BoardView {
    let v0 = BoardView { manual_v_scroll: false, manual_h_scroll: false, ..v };
    match v.data {
        None => v0,
        Some(data) => {
            let grouped = grouping != BoardGrouping::Ungrouped;
            let lanes = board_lanes(data, grouping);
            let cells = board_cells(data, lanes, lanes.len() as int, search, v.collapsed, grouped);
            let found = match v.selected {
                Some(key) => cell_index(cells, key),
                None => None,
            };
            if cells.len() == 0 {
                BoardView { selected: None, ..v0 }
            } else {
                match found {
                    None => BoardView { selected: Some(cells[0].key), ..v0 },
                    Some(si) => {
                        let sel = cells[si];
                        let keep = if sel.is_group { v.preferred_column } else { sel.column };
                        let ncols = data.columns@.len();
                        let last_col: nat = if ncols == 0 { 0 } else { (ncols - 1) as nat };
                        let pc = if keep < last_col { keep } else { last_col };
                        let (collapsed, next) = board_move(data, lanes, cells, v.collapsed, grouped, sel, pc as int, search, action);
                        match next {
                            None => BoardView { preferred_column: keep, collapsed, ..v0 },
                            Some(key) => {
                                let landing = match cell_index(cells, key) {
                                    Some(k) => if cells[k].is_group { keep } else { cells[k].column },
                                    None => keep,
                                };
                                BoardView { preferred_column: landing, collapsed, selected: Some(key), ..v0 }
                            },
                        }
                    },
                }
            }
        },
    }
}

/// The board view's state: its data, the selection, collapsed lanes and the
/// viewport offsets that rendering reads and writes.
#[derive(Debug, Clone, PartialEq, Eq)]
pub struct BoardState {
    data: Option<BoardData>,
    error: Option<String>,
    selected_issue_key: Option<String>,
    /// Column the user is navigating in, kept across lane headers so vertical
    /// movement stays in the same column.
    preferred_column: usize,
    collapsed_groups: IdSet,
    pub scroll_offset: usize,
    pub col_scroll_offset: usize,
    /// The viewport was scrolled by hand, so rendering shows the manual
    /// offset instead of following the selection.
    pub manual_v_scroll: bool,
    pub manual_h_scroll: bool,
    /// Manual horizontal offset in cells, used while `manual_h_scroll` is set.
    pub manual_h_offset: u16,
    pub column_widths: Vec<usize>,
}

impl View for BoardState {
    type V = BoardView;

    closed spec fn view(&self) -> BoardView {
        BoardView {
            data: self.data,
            error: opt_str_view(self.error),
            selected: opt_str_view(self.selected_issue_key),
            preferred_column: self.preferred_column as nat,
            collapsed: self.collapsed_groups@,
            scroll: self.scroll_offset as nat,
            col_scroll: self.col_scroll_offset as nat,
            manual_v_scroll: self.manual_v_scroll,
            manual_h_scroll: self.manual_h_scroll,
            manual_h_offset: self.manual_h_offset as nat,
        }
    }
}

impl BoardState {
    /// The column widths of the latest render.
    pub closed spec fn column_widths_spec(&self) -> Seq<usize> {
        self.column_widths@
    }

    pub fn empty() -> (r: Self)
        ensures
            r@ == (BoardView {
                data: None,
                error: None,
                selected: None,
                preferred_column: 0,
                collapsed: Set::empty(),
                scroll: 0,
                col_scroll: 0,
                manual_v_scroll: false,
                manual_h_scroll: false,
                manual_h_offset: 0,
            }),
            r.column_widths_spec() == Seq::<usize>::empty(),
    {
        BoardState {
            data: None,
            error: None,
            selected_issue_key: None,
            preferred_column: 0,
            collapsed_groups: IdSet::new(),
            scroll_offset: 0,
            col_scroll_offset: 0,
            manual_v_scroll: false,
            manual_h_scroll: false,
            manual_h_offset: 0,
            column_widths: Vec::new(),
        }
    }

    /// A board built from issues alone (one column per status).
    pub fn from_issues(issues: Vec<IssueSummary>) -> (r: Self)
        ensures
            match r@.data {
                Some(d) => crate::models::from_issues_ok(d, issues@) && r@ == set_data_spec(BoardState::empty_view(), d),
                None => false,
            },
    {
        let mut board = BoardState::empty();
        let data = BoardData::from_issues(issues);
        board.set_data(data);
        board
    }

    pub open spec fn empty_view() -> BoardView {
        BoardView {
            data: None,
            error: None,
            selected: None,
            preferred_column: 0,
            collapsed: Set::empty(),
            scroll: 0,
            col_scroll: 0,
            manual_v_scroll: false,
            manual_h_scroll: false,
            manual_h_offset: 0,
        }
    }

    /// Shows new board data, keeping the selection when its key is still on
    /// the board (as laid out ungrouped) and otherwise selecting the first cell.
    pub fn set_data(&mut self, data: BoardData)
        ensures
            final(self)@ == set_data_spec(old(self)@, data),
    {
        let lanes = board_grouped_lanes(&data, BoardGrouping::Ungrouped);
        proof {
            reveal_strlit("");
        }
        assert(""@ =~= Seq::<char>::empty());
        let cells = cells_for_lanes(&data, &lanes, "", &self.collapsed_groups, BoardGrouping::Ungrouped);
        let ghost cv = cell_views(cells@);
        let keep = match &self.selected_issue_key {
            Some(key) => cell_position(&cells, key.as_str()).is_some(),
            None => false,
        };
        if !keep {
            if cells.len() > 0 {
                assert(cv[0] == cells@[0]@);
                self.selected_issue_key = Some(cells[0].key.clone());
            } else {
                self.selected_issue_key = None;
            }
        }
        self.data = Some(data);
        self.error = None;
    }

    /// Selects the first cell of the board as shown under the search and grouping.
    pub fn select_first(&mut self, search: &str, grouping: BoardGrouping)
        ensures
            final(self)@ == select_first_spec(old(self)@, search@, grouping),
    {
        let data = match &self.data {
            Some(d) => d,
            None => {
                self.selected_issue_key = None;
                return;
            },
        };
        let lanes = board_grouped_lanes(data, grouping);
        let cells = cells_for_lanes(data, &lanes, search, &self.collapsed_groups, grouping);
        if cells.len() > 0 {
            assert(cell_views(cells@)[0] == cells@[0]@);
            self.selected_issue_key = Some(cells[0].key.clone());
        } else {
            self.selected_issue_key = None;
        }
    }

    pub fn set_error(&mut self, error: String)
        ensures
            final(self)@ == (BoardView { error: Some(error@), ..old(self)@ }),
    {
        self.error = Some(error);
    }

    pub fn data(&self) -> (r: Option<&BoardData>)
        ensures
            match r {
                Some(d) => self@.data == Some(*d),
                None => self@.data is None,
            },
    {
        self.data.as_ref()
    }

    pub fn error(&self) -> (r: Option<&str>)
        ensures
            match r {
                Some(e) => self@.error == Some(e@),
                None => self@.error is None,
            },
    {
        match &self.error {
            Some(e) => Some(e.as_str()),
            None => None,
        }
    }

    /// The selected issue's key; `None` when a lane header or an empty cell is
    /// selected.
    pub fn selected_issue_key(&self) -> (r: Option<&str>)
        ensures
            match r {
                Some(k) => self@.selected == Some(k@) && !has_prefix(k@, "__board_group__:"@)
                    && !has_prefix(k@, "__board_empty__:"@),
                None => match self@.selected {
                    Some(k) => has_prefix(k, "__board_group__:"@) || has_prefix(k, "__board_empty__:"@),
                    None => true,
                },
            },
    {
        match &self.selected_issue_key {
            Some(key) => {
                if is_board_group_key(key.as_str()) || is_board_empty_key(key.as_str()) {
                    None
                } else {
                    Some(key.as_str())
                }
            },
            None => None,
        }
    }

    /// The lane whose header is selected, if one is.
    pub fn selected_group(&self) -> (r: Option<&str>)
        ensures
            match r {
                Some(g) => self@.selected == Some(group_key_spec(g@)),
                None => match self@.selected {
                    Some(k) => !has_prefix(k, "__board_group__:"@),
                    None => true,
                },
            },
    {
        match &self.selected_issue_key {
            Some(key) => board_group_key_name(key.as_str()),
            None => None,
        }
    }

    /// The raw selected key (issue, lane header or empty cell), used to find
    /// the selection's position for scrolling.
    pub fn selected_raw_key(&self) -> (r: Option<&str>)
        ensures
            match r {
                Some(k) => self@.selected == Some(k@),
                None => self@.selected is None,
            },
    {
        match &self.selected_issue_key {
            Some(key) => Some(key.as_str()),
            None => None,
        }
    }

    /// The `(lane, column)` of a selected empty cell.
    pub fn selected_empty_cell(&self) -> (r: Option<(&str, usize)>)
        ensures
            match r {
                Some((group, column)) => match self@.selected {
                    Some(k) => empty_cell_parts_spec(k) == Some((group@, column as int)),
                    None => false,
                },
                None => match self@.selected {
                    Some(k) => empty_cell_parts_spec(k) is None,
                    None => true,
                },
            },
    {
        match &self.selected_issue_key {
            Some(key) => board_empty_cell_parts(key.as_str()),
            None => None,
        }
    }

    pub fn is_group_collapsed(&self, group: &str) -> (r: bool)
        ensures
            r == self@.collapsed.contains(group@),
    {
        self.collapsed_groups.contains(group)
    }

    /// Sets (or clears) the assignee shown on the first issue with `issue_key`.
    pub fn update_assignee(&mut self, issue_key: &str, assignee_name: Option<String>)
        ensures
            final(self)@ == (BoardView { data: final(self)@.data, ..old(self)@ }),
            match (old(self)@.data, final(self)@.data) {
                (Some(before), Some(after)) => assignee_updated(before, after, issue_key@, opt_str_view(assignee_name)),
                (None, None) => true,
                _ => false,
            },
    {
        let mut data = match self.data.take() {
            Some(d) => d,
            None => {
                return;
            },
        };
        let ghost before = data;
        match find_issue(&data.issues, issue_key) {
            Some(j) => {
                let mut issue = data.issues.remove(j);
                match assignee_name {
                    Some(name) => {
                        issue.field_values.insert("assignee".to_owned(), name);
                    },
                    None => {
                        issue.field_values.remove("assignee");
                    },
                }
                data.issues.insert(j, issue);
                assert(data.issues@ =~= before.issues@.update(j as int, data.issues@[j as int]));
            },
            None => {},
        }
        self.data = Some(data);
    }

    /// Position of the selection among the board's cells as shown, or 0.
    pub fn selected_issue_index(&self, search: &str, grouping: BoardGrouping) -> (r: usize)
        ensures
            r == match (self@.data, self@.selected) {
                (Some(data), Some(key)) => {
                    let lanes = board_lanes(data, grouping);
                    match cell_index(board_cells(data, lanes, lanes.len() as int, search@, self@.collapsed, grouping != BoardGrouping::Ungrouped), key) {
                        Some(i) => i,
                        None => 0,
                    }
                },
                _ => 0,
            },
    {
        let data = match &self.data {
            Some(d) => d,
            None => {
                return 0;
            },
        };
        let selected = match &self.selected_issue_key {
            Some(k) => k,
            None => {
                return 0;
            },
        };
        let lanes = board_grouped_lanes(data, grouping);
        let cells = cells_for_lanes(data, &lanes, search, &self.collapsed_groups, grouping);
        match cell_position(&cells, selected.as_str()) {
            Some(i) => i,
            None => 0,
        }
    }

    /// Scrolls the board vertically by `delta` lines without moving the
    /// selection; rendering clamps the far end.
    pub fn scroll_viewport(&mut self, delta: isize)
        ensures
            final(self)@ == (BoardView {
                scroll: crate::tree::sat_add_signed(old(self)@.scroll as int, delta as int) as nat,
                manual_v_scroll: true,
                ..old(self)@
            }),
    {
        self.scroll_offset = crate::tree::saturating_add_signed(self.scroll_offset, delta);
        self.manual_v_scroll = true;
    }

    /// Scrolls the board horizontally by `delta` cells without moving the
    /// selection. The first manual step starts from `rendered_offset`, where
    /// the view currently stands, so it does not jump.
    pub fn scroll_viewport_horizontal(&mut self, delta: i32, rendered_offset: u16)
        ensures
            final(self)@ == (BoardView {
                manual_h_offset: ({
                    let base = if old(self)@.manual_h_scroll { old(self)@.manual_h_offset as int } else { rendered_offset as int };
                    let step = if delta < i16::MIN { i16::MIN as int } else if delta > i16::MAX { i16::MAX as int } else { delta as int };
                    if base + step < 0 { 0 } else if base + step > u16::MAX { u16::MAX as int } else { base + step }
                }) as nat,
                manual_h_scroll: true,
                ..old(self)@
            }),
    {
        let base: i32 = if self.manual_h_scroll { self.manual_h_offset as i32 } else { rendered_offset as i32 };
        let step: i32 = if delta < -32768 { -32768 } else if delta > 32767 { 32767 } else { delta };
        let moved = base + step;
        self.manual_h_offset = if moved < 0 { 0 } else if moved > 65535 { 65535 } else { moved as u16 };
        self.manual_h_scroll = true;
    }

    pub fn dispatch(&mut self, action: BoardAction, search: &str, grouping: BoardGrouping)
        ensures
            final(self)@ == board_step(old(self)@, action, search@, grouping),
    {
        self.manual_v_scroll = false;
        self.manual_h_scroll = false;
        let ghost v0 = self@;
        let data = match &self.data {
            Some(d) => d,
            None => {
                return;
            },
        };
        let grouped = grouping.is_grouped();
        let needle = search_needle(search);
        let lanes = board_grouped_lanes(data, grouping);
        let cells = cells_for_lanes(data, &lanes, search, &self.collapsed_groups, grouping);
        let ghost lv = lane_views(lanes@);
        let ghost cv = cell_views(cells@);
        proof {
            lemma_board_cells_lanes(*data, lv, lv.len() as int, search@, self.collapsed_groups@, grouped);
            assert forall|k: int| 0 <= k < cells.len() implies (#[trigger] cells@[k]).lane < lanes.len() by {
                assert(cv[k] == cells@[k]@);
            }
        }
        if cells.len() == 0 {
            self.selected_issue_key = None;
            return;
        }
        let found = match &self.selected_issue_key {
            Some(key) => cell_position(&cells, key.as_str()),
            None => None,
        };
        let si = match found {
            Some(si) => si,
            None => {
                assert(cv[0] == cells@[0]@);
                self.selected_issue_key = Some(cells[0].key.clone());
                return;
            },
        };
        let selected = &cells[si];
        assert(cv[si as int] == selected@);
        if !selected.is_group {
            self.preferred_column = selected.column;
        }
        let last_col: usize = if data.columns.len() == 0 { 0 } else { data.columns.len() - 1 };
        let pc = if self.preferred_column < last_col { self.preferred_column } else { last_col };
        let ghost collapsed0 = self.collapsed_groups@;
        let next: Option<String> = match action {
            BoardAction::MoveLeft => {
                if selected.is_group {
                    self.collapsed_groups.insert(selected.group.clone());
                    None
                } else {
                    match board_horizontal_target(data, &lanes, selected, false, search, &needle) {
                        Some(k) => Some(k),
                        None => if grouped { Some(board_group_key(selected.group.as_str())) } else { None },
                    }
                }
            },
            BoardAction::MoveRight => {
                if selected.is_group {
                    self.collapsed_groups.remove(selected.group.as_str());
                    Some(board_lane_column_entry(data, &lanes[selected.lane], pc, search, &needle, false))
                } else {
                    board_horizontal_target(data, &lanes, selected, true, search, &needle)
                }
            },
            BoardAction::ToggleCollapse => {
                if selected.is_group {
                    if !self.collapsed_groups.remove(selected.group.as_str()) {
                        self.collapsed_groups.insert(selected.group.clone());
                    }
                }
                None
            },
            BoardAction::MoveUp => board_vertical_target(data, &lanes, &self.collapsed_groups, grouped, selected, pc, search, &needle, true),
            BoardAction::MoveDown => board_vertical_target(data, &lanes, &self.collapsed_groups, grouped, selected, pc, search, &needle, false),
            BoardAction::HalfPageUp => board_page_vertical(data, &lanes, &cells, &self.collapsed_groups, grouped, selected, pc, search, &needle, true),
            BoardAction::HalfPageDown => board_page_vertical(data, &lanes, &cells, &self.collapsed_groups, grouped, selected, pc, search, &needle, false),
            BoardAction::GoToStart => column_end_key(&cells, pc, false),
            BoardAction::GoToEnd => column_end_key(&cells, pc, true),
            BoardAction::GoToStartPrefix => None,
            BoardAction::CollapseAllGroups => {
                let group_key = board_group_key(selected.group.as_str());
                collapse_lanes_with_cards(&mut self.collapsed_groups, data, &lanes, search, &needle);
                Some(group_key)
            },
            BoardAction::ExpandAllGroups => {
                self.collapsed_groups.clear();
                None
            },
        };
        match next {
            Some(key) => {
                match cell_position(&cells, key.as_str()) {
                    Some(k) => {
                        assert(cv[k as int] == cells@[k as int]@);
                        if !cells[k].is_group {
                            self.preferred_column = cells[k].column;
                        }
                    },
                    None => {},
                }
                self.selected_issue_key = Some(key);
            },
            None => {},
        }
    }
}

/// Adds the lanes that have a card to the collapsed set.
fn collapse_lanes_with_cards(collapsed: &mut IdSet, data: &BoardData, lanes: &Vec<BoardSwimlaneSummary>, search: &str, needle: &Vec<char>)
    requires
        needle@ == ascii_lower_seq(trim(search@)),
    ensures
        final(collapsed)@ == old(collapsed)@.union(lanes_with_cards(*data, lane_views(lanes@), search@)),
{
    let ghost lv = lane_views(lanes@);
    let ghost start = old(collapsed)@;
    let mut i: usize = 0;
    while i < lanes.len()
        invariant
            i <= lanes.len(),
            lv == lane_views(lanes@),
            needle@ == ascii_lower_seq(trim(search@)),
            collapsed@ == start.union(lanes_with_cards(*data, lv.take(i as int), search@)),
        decreases lanes.len() - i,
    {
        let has = lane_has_card(data, &lanes[i], search, needle);
        let ghost before = collapsed@;
        if has {
            collapsed.insert(lanes[i].name.clone());
        }
        proof {
            assert(lv[i as int] == lane_view(lanes@[i as int]));
            assert forall|name: Seq<char>| #[trigger] collapsed@.contains(name) <==> start.union(lanes_with_cards(*data, lv.take(i + 1), search@)).contains(name) by {
                let short = lv.take(i as int);
                let long = lv.take(i + 1);
                if lanes_with_cards(*data, long, search@).contains(name) {
                    let j = choose|j: int| 0 <= j < long.len() && (#[trigger] long[j]).name == name && lane_has_cards(*data, long[j], search@);
                    if j < i {
                        assert(short[j] == long[j]);
                        assert(lanes_with_cards(*data, short, search@).contains(name));
                    }
                }
                if lanes_with_cards(*data, short, search@).contains(name) {
                    let j = choose|j: int| 0 <= j < short.len() && (#[trigger] short[j]).name == name && lane_has_cards(*data, short[j], search@);
                    assert(long[j] == short[j]);
                    assert(lanes_with_cards(*data, long, search@).contains(name));
                }
                if has && name == lanes@[i as int].name@ {
                    assert(long[i as int] == lv[i as int]);
                    assert(lanes_with_cards(*data, long, search@).contains(name));
                }
            }
            assert(collapsed@ =~= start.union(lanes_with_cards(*data, lv.take(i + 1), search@)));
        }
        i = i + 1;
    }
    assert(lv.take(i as int) =~= lv);
}

/// Whether a lane has a card in some column.
fn lane_has_card(data: &BoardData, lane: &BoardSwimlaneSummary, search: &str, needle: &Vec<char>) -> (r: bool)
    requires
        needle@ == ascii_lower_seq(trim(search@)),
    ensures
        r == lane_has_cards(*data, lane_view(*lane), search@),
{
    let mut c: usize = 0;
    while c < data.columns.len()
        invariant
            c <= data.columns.len(),
            needle@ == ascii_lower_seq(trim(search@)),
            forall|k: int| 0 <= k < c ==> (#[trigger] cell_keys(*data, lane_view(*lane).keys, k, search@)).len() == 0,
        decreases data.columns.len() - c,
    {
        let keys = lane_column_keys(data, &lane.issue_keys, c, search, needle);
        if keys.len() > 0 {
            assert(cell_keys(*data, lane_view(*lane).keys, c as int, search@).len() > 0);
            return true;
        }
        c = c + 1;
    }
    false
}
/// What selecting the first shown cell does to the board.
pub open spec fn select_first_spec(v: BoardView, search: Seq<char>, grouping: BoardGrouping) -> BoardView {
    BoardView {
        selected: match v.data {
            None => None,
            Some(data) => {
                let lanes = board_lanes(data, grouping);
                let cells = board_cells(data, lanes, lanes.len() as int, search, v.collapsed, grouping != BoardGrouping::Ungrouped);
                if cells.len() == 0 { None } else { Some(cells[0].key) }
            },
        },
        ..v
    }
}

/// The board after showing new data: the selection stays if its key is on
/// the board laid out ungrouped, else moves to the first cell.
pub open spec fn set_data_spec(v: BoardView, data: BoardData) -> BoardView {
    let lanes = lane_views(data.swimlanes@);
    let cells = board_cells(data, lanes, lanes.len() as int, Seq::empty(), v.collapsed, false);
    let keep = match v.selected {
        Some(key) => cell_index(cells, key) is Some,
        None => false,
    };
    BoardView {
        data: Some(data),
        error: None,
        selected: if keep { v.selected } else if cells.len() > 0 { Some(cells[0].key) } else { None },
        ..v
    }
}

/// `after` is `before` with the assignee of the first issue keyed `key` set
/// to `name`, or removed when `name` is `None`; nothing else differs.
pub open spec fn assignee_updated(before: BoardData, after: BoardData, key: Seq<char>, name: Option<Seq<char>>) -> bool {
    &&& after.id == before.id
    &&& after.name == before.name
    &&& after.columns == before.columns
    &&& after.swimlanes == before.swimlanes
    &&& after.sprint == before.sprint
    &&& after.issues@.len() == before.issues@.len()
    &&& forall|j: int| 0 <= j < before.issues@.len() && issue_index(before.issues@, key) != Some(j)
        ==> #[trigger] after.issues@[j] == before.issues@[j]
    &&& match issue_index(before.issues@, key) {
        Some(j) => {
            let a = after.issues@[j];
            let b = before.issues@[j];
            &&& a.key == b.key && a.summary == b.summary && a.status == b.status
            &&& a.issue_type == b.issue_type && a.parent_key == b.parent_key && a.has_children == b.has_children
            &&& a.field_values@ == match name {
                Some(n) => b.field_values@.insert("assignee"@, n),
                None => b.field_values@.remove("assignee"@),
            }
        },
        None => true,
    }
}
/// The display name of the user with account `id`: the first match among
/// `users`, then the current user.
pub open spec fn user_name_for(users: Seq<UserSummary>, current: Option<UserSummary>, id: Seq<char>) -> Option<Seq<char>>
    decreases users.len(),
{
    if users.len() > 0 {
        if users[0].account_id@ == id {
            Some(users[0].display_name@)
        } else {
            user_name_for(users.drop_first(), current, id)
        }
    } else {
        match current {
            Some(u) => if u.account_id@ == id { Some(u.display_name@) } else { None },
            None => None,
        }
    }
}

/// `field` rewritten from an account id to that user's display name, when
/// the id belongs to a known user.
pub open spec fn named_field(fields: Map<Seq<char>, Seq<char>>, field: Seq<char>, users: Seq<UserSummary>, current: Option<UserSummary>) -> Map<Seq<char>, Seq<char>> {
    if fields.contains_key(field) {
        match user_name_for(users, current, fields[field]) {
            Some(name) => fields.insert(field, name),
            None => fields,
        }
    } else {
        fields
    }
}

/// Issue fields with the assignee and reporter shown by name.
pub open spec fn named_user_fields(fields: Map<Seq<char>, Seq<char>>, users: Seq<UserSummary>, current: Option<UserSummary>) -> Map<Seq<char>, Seq<char>> {
    named_field(named_field(fields, "assignee"@, users, current), "reporter"@, users, current)
}

fn find_user_name(users: &[UserSummary], current_user: Option<&UserSummary>, id: &str) -> (r: Option<String>)
    ensures
        opt_str_view(r) == user_name_for(users@, match current_user {
            Some(u) => Some(*u),
            None => None,
        }, id@),
{
    let ghost current = match current_user {
        Some(u) => Some(*u),
        None => None,
    };
    let mut i: usize = 0;
    assert(users@.skip(0) =~= users@);
    while i < users.len()
        invariant
            i <= users.len(),
            current == match current_user {
                Some(u) => Some(*u),
                None => None::<UserSummary>,
            },
            user_name_for(users@, current, id@) == user_name_for(users@.skip(i as int), current, id@),
        decreases users.len() - i,
    {
        assert(users@.skip(i as int)[0] == users@[i as int]);
        assert(users@.skip(i as int).drop_first() =~= users@.skip(i + 1));
        if crate::text::str_eq(users[i].account_id.as_str(), id) {
            return Some(users[i].display_name.clone());
        }
        i = i + 1;
    }
    assert(users@.skip(i as int).len() == 0);
    match current_user {
        Some(u) => {
            if crate::text::str_eq(u.account_id.as_str(), id) {
                Some(u.display_name.clone())
            } else {
                None
            }
        },
        None => None,
    }
}

fn name_field(fields: &mut FieldMap, field: &str, users: &[UserSummary], current_user: Option<&UserSummary>)
    ensures
        final(fields)@ == named_field(old(fields)@, field@, users@, match current_user {
            Some(u) => Some(*u),
            None => None,
        }),
{
    let name = match fields.get(field) {
        Some(value) => find_user_name(users, current_user, value.as_str()),
        None => None,
    };
    match name {
        Some(n) => {
            fields.insert(field.to_owned(), n);
        },
        None => {},
    }
}

/// Shows assignees and reporters of the board's issues by display name
/// instead of account id, for users the client knows.
pub fn normalize_board_user_fields(board: &mut BoardData, users: &[UserSummary], current_user: Option<&UserSummary>)
    ensures
        final(board).id == old(board).id,
        final(board).name == old(board).name,
        final(board).columns == old(board).columns,
        final(board).swimlanes == old(board).swimlanes,
        final(board).sprint == old(board).sprint,
        final(board).issues@.len() == old(board).issues@.len(),
        forall|j: int| 0 <= j < old(board).issues@.len() ==> {
            let a = #[trigger] final(board).issues@[j];
            let b = old(board).issues@[j];
            &&& a.key == b.key && a.summary == b.summary && a.status == b.status
            &&& a.issue_type == b.issue_type && a.parent_key == b.parent_key && a.has_children == b.has_children
            &&& a.field_values@ == named_user_fields(b.field_values@, users@, match current_user {
                Some(u) => Some(*u),
                None => None,
            })
        },
{
    let ghost start = old(board).issues@;
    let mut i: usize = 0;
    while i < board.issues.len()
        invariant
            i <= board.issues.len(),
            board.id == old(board).id,
            board.name == old(board).name,
            board.columns == old(board).columns,
            board.swimlanes == old(board).swimlanes,
            board.sprint == old(board).sprint,
            start == old(board).issues@,
            board.issues@.len() == start.len(),
            forall|j: int| i <= j < start.len() ==> #[trigger] board.issues@[j] == start[j],
            forall|j: int| 0 <= j < i ==> {
                let a = #[trigger] board.issues@[j];
                let b = start[j];
                &&& a.key == b.key && a.summary == b.summary && a.status == b.status
                &&& a.issue_type == b.issue_type && a.parent_key == b.parent_key && a.has_children == b.has_children
                &&& a.field_values@ == named_user_fields(b.field_values@, users@, match current_user {
                    Some(u) => Some(*u),
                    None => None,
                })
            },
        decreases board.issues.len() - i,
    {
        let mut issue = board.issues.remove(i);
        name_field(&mut issue.field_values, "assignee", users, current_user);
        name_field(&mut issue.field_values, "reporter", users, current_user);
        board.issues.insert(i, issue);
        i = i + 1;
    }
}
} // verus!
