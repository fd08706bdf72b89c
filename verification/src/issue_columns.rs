//! The columns of the issue table and the requests they make of Jira.
use vstd::prelude::*;
use crate::dropdown::DropdownAction;
use crate::filtered_tree::FilteredTreeAction;
use crate::text::{chars_of, str_eq, string_from_chars};

verus! {

#[derive(Debug, Clone, PartialEq, Eq)]
pub enum JiraIssueColumn {
    IssueKey,
    Summary,
    IssueType,
    Status,
    Field { id: String, label: String },
}

/// The content of a column.
pub enum ColumnView {
    IssueKey,
    Summary,
    IssueType,
    Status,
    Field { id: Seq<char>, label: Seq<char> },
}

impl View for JiraIssueColumn {
    type V = ColumnView;

    open spec fn view(&self) -> ColumnView {
        match self {
            JiraIssueColumn::IssueKey => ColumnView::IssueKey,
            JiraIssueColumn::Summary => ColumnView::Summary,
            JiraIssueColumn::IssueType => ColumnView::IssueType,
            JiraIssueColumn::Status => ColumnView::Status,
            JiraIssueColumn::Field { id, label } => ColumnView::Field { id: id@, label: label@ },
        }
    }
}

pub open spec fn column_views(columns: Seq<JiraIssueColumn>) -> Seq<ColumnView> {
    columns.map_values(|c: JiraIssueColumn| c@)
}

pub open spec fn field_column(id: Seq<char>, label: Seq<char>) -> ColumnView {
    ColumnView::Field { id, label }
}

/// The columns every table shows: key, priority and summary.
pub open spec fn fixed_columns_spec() -> Seq<ColumnView> {
    seq![ColumnView::IssueKey, field_column("priority"@, "Priority"@), ColumnView::Summary]
}

/// The Jira field a column reads, for the columns that are not base fields.
pub open spec fn field_id_spec(c: ColumnView) -> Option<Seq<char>> {
    match c {
        ColumnView::Field { id, .. } => Some(id),
        _ => None,
    }
}

/// The fields a search requests: the base fields, then each column's field
/// once, in column order.
pub open spec fn fields_for(columns: Seq<ColumnView>) -> Seq<Seq<char>>
    decreases columns.len(),
{
    if columns.len() == 0 {
        seq!["summary"@, "status"@, "issuetype"@, "parent"@]
    } else {
        let before = fields_for(columns.drop_last());
        match field_id_spec(columns.last()) {
            Some(id) => if before.contains(id) { before } else { before.push(id) },
            None => before,
        }
    }
}

/// The names joined with commas between them.
pub open spec fn comma_joined(names: Seq<Seq<char>>) -> Seq<char>
    decreases names.len(),
{
    if names.len() == 0 {
        Seq::empty()
    } else if names.len() == 1 {
        names[0]
    } else {
        comma_joined(names.drop_last()) + seq![','] + names.last()
    }
}

impl JiraIssueColumn {
    fn field(id: &str, label: &str) -> (r: Self)
        ensures
            r@ == field_column(id@, label@),
    {
        JiraIssueColumn::Field { id: id.to_owned(), label: label.to_owned() }
    }

    /// The columns a table starts with.
    pub fn default_columns() -> (r: Vec<Self>)
        ensures
            column_views(r@) == fixed_columns_spec() + seq![
                field_column("assignee"@, "Assignee"@),
                ColumnView::Status,
                field_column("labels"@, "Labels"@),
            ],
    {
        let mut columns = Self::fixed_columns();
        let ghost fixed = column_views(columns@);
        columns.push(Self::field("assignee", "Assignee"));
        columns.push(JiraIssueColumn::Status);
        columns.push(Self::labels_column());
        assert(column_views(columns@) =~= fixed + seq![
            field_column("assignee"@, "Assignee"@),
            ColumnView::Status,
            field_column("labels"@, "Labels"@),
        ]);
        columns
    }

    /// The columns that cannot be hidden.
    pub fn fixed_columns() -> (r: Vec<Self>)
        ensures
            column_views(r@) == fixed_columns_spec(),
    {
        let r = vec![JiraIssueColumn::IssueKey, Self::field("priority", "Priority"), JiraIssueColumn::Summary];
        assert(column_views(r@) =~= fixed_columns_spec());
        r
    }

    pub fn labels_column() -> (r: Self)
        ensures
            r@ == field_column("labels"@, "Labels"@),
    {
        Self::field("labels", "Labels")
    }

    /// Whether the column is always shown: key, summary and priority.
    pub fn is_fixed(&self) -> (r: bool)
        ensures
            r == match self@ {
                ColumnView::IssueKey | ColumnView::Summary => true,
                ColumnView::Field { id, .. } => id == "priority"@,
                _ => false,
            },
    {
        match self {
            JiraIssueColumn::IssueKey | JiraIssueColumn::Summary => true,
            JiraIssueColumn::Field { id, .. } => str_eq(id.as_str(), "priority"),
            _ => false,
        }
    }

    /// The column header; the priority column shows only its icons.
    pub fn label(&self) -> (r: &str)
        ensures
            r@ == match self@ {
                ColumnView::IssueKey => "Work"@,
                ColumnView::Summary => "Summary"@,
                ColumnView::IssueType => "Work type"@,
                ColumnView::Status => "Status"@,
                ColumnView::Field { id, label } => if id == "priority"@ { ""@ } else { label },
            },
    {
        match self {
            JiraIssueColumn::IssueKey => "Work",
            JiraIssueColumn::Summary => "Summary",
            JiraIssueColumn::IssueType => "Work type",
            JiraIssueColumn::Status => "Status",
            JiraIssueColumn::Field { id, label } => {
                if str_eq(id.as_str(), "priority") {
                    ""
                } else {
                    label.as_str()
                }
            },
        }
    }

    /// The Jira field id this column reads, if it is not a base field.
    pub fn field_id(&self) -> (r: Option<&str>)
        ensures
            match r {
                Some(id) => field_id_spec(self@) == Some(id@),
                None => field_id_spec(self@) is None,
            },
    {
        match self {
            JiraIssueColumn::Field { id, .. } => Some(id.as_str()),
            _ => None,
        }
    }

    /// The comma-separated `fields` value of a search that covers the base
    /// fields and every field the columns show, each once, in a stable order.
    pub fn fields_param(columns: &[JiraIssueColumn]) -> (r: String)
        ensures
            r@ == comma_joined(fields_for(column_views(columns@))),
    {
        let mut fields: Vec<Vec<char>> = vec![chars_of("summary"), chars_of("status"), chars_of("issuetype"), chars_of("parent")];
        let ghost base = seq!["summary"@, "status"@, "issuetype"@, "parent"@];
        assert(vec_views(fields@) =~= fields_for(column_views(columns@).take(0)));
        let mut i: usize = 0;
        while i < columns.len()
            invariant
                i <= columns.len(),
                vec_views(fields@) == fields_for(column_views(columns@).take(i as int)),
            decreases columns.len() - i,
        {
            assert(column_views(columns@).take(i + 1).drop_last() =~= column_views(columns@).take(i as int));
            assert(column_views(columns@).take(i + 1).last() == columns@[i as int]@);
            match columns[i].field_id() {
                Some(id) => {
                    let id_chars = chars_of(id);
                    if !contains_name(&fields, &id_chars) {
                        let ghost before = vec_views(fields@);
                        fields.push(id_chars);
                        assert(vec_views(fields@) =~= before.push(id@));
                    }
                },
                None => {},
            }
            i = i + 1;
        }
        assert(column_views(columns@).take(i as int) =~= column_views(columns@));
        let joined = join_with_commas(&fields);
        string_from_chars(&joined)
    }
}

pub open spec fn vec_views(v: Seq<Vec<char>>) -> Seq<Seq<char>> {
    v.map_values(|w: Vec<char>| w@)
}

fn contains_name(names: &Vec<Vec<char>>, name: &Vec<char>) -> (r: bool)
    ensures
        r == vec_views(names@).contains(name@),
{
    let mut i: usize = 0;
    while i < names.len()
        invariant
            i <= names.len(),
            forall|j: int| 0 <= j < i ==> vec_views(names@)[j] != name@,
        decreases names.len() - i,
    {
        if crate::text::chars_eq(&names[i], name) {
            assert(vec_views(names@)[i as int] == name@);
            return true;
        }
        i = i + 1;
    }
    false
}

fn join_with_commas(names: &Vec<Vec<char>>) -> (r: Vec<char>)
    ensures
        r@ == comma_joined(vec_views(names@)),
{
    let mut out: Vec<char> = Vec::new();
    let mut i: usize = 0;
    while i < names.len()
        invariant
            i <= names.len(),
            out@ == comma_joined(vec_views(names@).take(i as int)),
        decreases names.len() - i,
    {
        let ghost before = out@;
        assert(vec_views(names@).take(i + 1).drop_last() =~= vec_views(names@).take(i as int));
        if i > 0 {
            out.push(',');
        }
        let mut k: usize = 0;
        let ghost mid = out@;
        while k < names[i].len()
            invariant
                i < names.len(),
                k <= names[i as int].len(),
                out@ == mid + names[i as int]@.take(k as int),
            decreases names[i as int].len() - k,
        {
            out.push(names[i][k]);
            k = k + 1;
            assert(out@ =~= mid + names[i as int]@.take(k as int));
        }
        assert(names[i as int]@.take(k as int) =~= names[i as int]@);
        i = i + 1;
        if i == 1 {
            assert(out@ =~= comma_joined(vec_views(names@).take(i as int)));
        } else {
            assert(out@ =~= comma_joined(vec_views(names@).take(i as int)));
        }
    }
    assert(vec_views(names@).take(i as int) =~= vec_views(names@));
    out
}

#[derive(Debug, Clone, Copy, PartialEq, Eq, Structural)]
pub enum JiraFilteredTreeAction {
    FilteredTree(FilteredTreeAction),
    Dropdown(DropdownAction),
    OpenColumns,
    YankIssueUrlPrefix,
}

#[derive(Debug, Clone, PartialEq, Eq)]
pub enum JiraFilteredTreeEvent {
    Quit,
    IssueUrlCopyRequested(String),
    IssueUrlCopyUnavailable(String),
    ColumnsChanged(Vec<JiraIssueColumn>),
    /// The selected issue was expanded but its children are not loaded yet.
    LoadChildren(String),
    /// The search filter changed; drive a server-side search with this term.
    FilterChanged(String),
    /// The search filter was cleared; restore the browse view.
    FilterCleared,
}


/// The fields a search requests are never requested twice.
pub proof fn lemma_fields_distinct(columns: Seq<ColumnView>)
    ensures
        forall|i: int, j: int| 0 <= i < j < fields_for(columns).len() ==> fields_for(columns)[i] != fields_for(columns)[j],
    decreases columns.len(),
{
    if columns.len() == 0 {
        reveal_strlit("summary");
        reveal_strlit("status");
        reveal_strlit("issuetype");
        reveal_strlit("parent");
        let base = fields_for(columns);
        assert forall|i: int, j: int| 0 <= i < j < base.len() implies base[i] != base[j] by {
            assert(base[i].len() != base[j].len() || base[i][0] != base[j][0] || base[i][1] != base[j][1]);
        }
    } else {
        lemma_fields_distinct(columns.drop_last());
        let before = fields_for(columns.drop_last());
        match field_id_spec(columns.last()) {
            Some(id) => {
                if !before.contains(id) {
                    let after = before.push(id);
                    assert forall|i: int, j: int| 0 <= i < j < after.len() implies after[i] != after[j] by {
                        if j == before.len() {
                            assert(after[i] == before[i]);
                        } else {
                            assert(after[i] == before[i] && after[j] == before[j]);
                        }
                    }
                }
            },
            None => {},
        }
    }
}
} // verus!
