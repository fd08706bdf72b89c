//! The issue list: a filtered tree of issues with configurable columns,
//! the column picker, and copying an issue's link.
use vstd::prelude::*;
use crate::collections::IdSet;
use crate::dropdown::{
    dropdown_step, DropdownEvent, DropdownOption, DropdownView,
    MultiSelectDropdownState,
};
use crate::filter::{filter_wf, FilterAction, FilterState, FilterView};
use crate::filtered_tree::{
    event_view, filter_edit_step, filtered_tree_step, parentless_count, FilteredTreeEvent, FilteredTreeEventView, FilteredTreeState, FilteredTreeView,
    FilteredTreeViewMode,
};
use crate::issue_columns::{
    column_views, field_column, fixed_columns_spec, ColumnView, JiraFilteredTreeAction,
    JiraFilteredTreeEvent, JiraIssueColumn,
};
use crate::text::{chars_of, str_eq, string_from_chars};
use crate::tree::{clamp_spec, rows_of, TreeItem, TreeRow, TreeView};

verus! {

/// The state of the issue list as the contracts see it.
#[verifier::ext_equal]
pub struct JiraTreeView {
    pub tree: FilteredTreeView,
    pub site: Option<Seq<char>>,
    pub dropdown: Option<DropdownView<JiraIssueColumn>>,
    pub visible: Seq<ColumnView>,
    pub available: Seq<ColumnView>,
    pub pending_yank: bool,
}

#[derive(Clone, PartialEq, Eq)]
pub struct JiraFilteredTreeState {
    filtered_tree: FilteredTreeState,
    jira_site: Option<String>,
    column_dropdown: Option<MultiSelectDropdownState<JiraIssueColumn>>,
    visible_columns: Vec<JiraIssueColumn>,
    available_columns: Vec<JiraIssueColumn>,
    pending_yank: bool,
}

impl View for JiraFilteredTreeState {
    type V = JiraTreeView;

    closed spec fn view(&self) -> JiraTreeView {
        JiraTreeView {
            tree: self.filtered_tree@,
            site: match self.jira_site {
                Some(s) => Some(s@),
                None => None,
            },
            dropdown: match self.column_dropdown {
                Some(d) => Some(d@),
                None => None,
            },
            visible: column_views(self.visible_columns@),
            available: column_views(self.available_columns@),
            pending_yank: self.pending_yank,
        }
    }
}

pub open spec fn is_fixed_spec(c: ColumnView) -> bool {
    match c {
        ColumnView::IssueKey | ColumnView::Summary => true,
        ColumnView::Field { id, .. } => id == "priority"@,
        _ => false,
    }
}

/// The columns that can be shown or hidden.
pub open spec fn optional_columns(columns: Seq<ColumnView>) -> Seq<ColumnView> {
    columns.filter(|c: ColumnView| !is_fixed_spec(c))
}

/// The values of the selected options, in option order.
pub open spec fn selected_values(options: Seq<DropdownOption<JiraIssueColumn>>) -> Seq<ColumnView>
    decreases options.len(),
{
    if options.len() == 0 {
        Seq::empty()
    } else {
        let before = selected_values(options.drop_last());
        if options.last().selected { before.push(options.last().value@) } else { before }
    }
}

/// What the column picker lists a column as.
pub open spec fn selector_label_spec(c: ColumnView) -> Seq<char> {
    match c {
        ColumnView::Field { id, label } => if id == "priority"@ {
            "Priority"@
        } else if id == "assignee"@ {
            "Assignee"@
        } else {
            label
        },
        ColumnView::IssueKey => "Work"@,
        ColumnView::Summary => "Summary"@,
        ColumnView::IssueType => "Work type"@,
        ColumnView::Status => "Status"@,
    }
}

/// The picker's options: every optional column, selected when shown.
pub open spec fn picker_options_ok(options: Seq<DropdownOption<JiraIssueColumn>>, available: Seq<ColumnView>, visible: Seq<ColumnView>) -> bool {
    &&& options.len() == available.len()
    &&& forall|i: int| 0 <= i < options.len() ==> {
        &&& (#[trigger] options[i]).value@ == available[i]
        &&& options[i].label@ == selector_label_spec(available[i])
        &&& options[i].selected == visible.contains(available[i])
    }
}

/// `site` without the slashes it ends with.
pub open spec fn without_trailing_slashes(site: Seq<char>) -> Seq<char>
    decreases site.len(),
{
    if site.len() > 0 && site.last() == '/' {
        without_trailing_slashes(site.drop_last())
    } else {
        site
    }
}

/// The link to the selected issue on the Jira site, if both are known.
pub open spec fn issue_url(v: JiraTreeView) -> Option<Seq<char>> {
    let t = v.tree.tree;
    let rows = rows_of(t);
    match v.site {
        None => None,
        Some(site) => if t.selected_row < rows.len() {
            Some(without_trailing_slashes(site) + "/browse/"@ + t.items[rows[t.selected_row as int].item_index as int].id)
        } else {
            None
        },
    }
}

/// The issue-list event a filtered-tree event becomes.
pub open spec fn jira_event_view(e: Option<JiraFilteredTreeEvent>) -> Option<FilteredTreeEventView> {
    match e {
        Some(JiraFilteredTreeEvent::Quit) => Some(FilteredTreeEventView::Quit),
        Some(JiraFilteredTreeEvent::LoadChildren(id)) => Some(FilteredTreeEventView::LoadChildren(id@)),
        Some(JiraFilteredTreeEvent::FilterChanged(t)) => Some(FilteredTreeEventView::FilterChanged(t@)),
        Some(JiraFilteredTreeEvent::FilterCleared) => Some(FilteredTreeEventView::FilterCleared),
        _ => None,
    }
}

fn map_tree_event(e: Option<FilteredTreeEvent>) -> (r: Option<JiraFilteredTreeEvent>)
    ensures
        jira_event_view(r) == event_view(e),
        match r {
            Some(JiraFilteredTreeEvent::Quit) | Some(JiraFilteredTreeEvent::LoadChildren(_))
            | Some(JiraFilteredTreeEvent::FilterChanged(_)) | Some(JiraFilteredTreeEvent::FilterCleared) | None => true,
            _ => false,
        },
{
    match e {
        Some(FilteredTreeEvent::Quit) => Some(JiraFilteredTreeEvent::Quit),
        Some(FilteredTreeEvent::LoadChildren(id)) => Some(JiraFilteredTreeEvent::LoadChildren(id)),
        Some(FilteredTreeEvent::FilterChanged(t)) => Some(JiraFilteredTreeEvent::FilterChanged(t)),
        Some(FilteredTreeEvent::FilterCleared) => Some(JiraFilteredTreeEvent::FilterCleared),
        None => None,
    }
}

impl JiraIssueColumn {
    /// An independent copy of the column.
    pub fn copy(&self) -> (r: JiraIssueColumn)
        ensures
            r@ == self@,
    {
        match self {
            JiraIssueColumn::IssueKey => JiraIssueColumn::IssueKey,
            JiraIssueColumn::Summary => JiraIssueColumn::Summary,
            JiraIssueColumn::IssueType => JiraIssueColumn::IssueType,
            JiraIssueColumn::Status => JiraIssueColumn::Status,
            JiraIssueColumn::Field { id, label } => JiraIssueColumn::Field { id: id.clone(), label: label.clone() },
        }
    }

    /// Whether two columns are the same column.
    pub fn same_as(&self, other: &JiraIssueColumn) -> (r: bool)
        ensures
            r == (self@ == other@),
    {
        match (self, other) {
            (JiraIssueColumn::IssueKey, JiraIssueColumn::IssueKey) => true,
            (JiraIssueColumn::Summary, JiraIssueColumn::Summary) => true,
            (JiraIssueColumn::IssueType, JiraIssueColumn::IssueType) => true,
            (JiraIssueColumn::Status, JiraIssueColumn::Status) => true,
            (JiraIssueColumn::Field { id: a, label: b }, JiraIssueColumn::Field { id: c, label: d }) => str_eq(a.as_str(), c.as_str()) && str_eq(b.as_str(), d.as_str()),
            _ => false,
        }
    }
}

fn contains_column(columns: &Vec<JiraIssueColumn>, column: &JiraIssueColumn) -> (r: bool)
    ensures
        r == column_views(columns@).contains(column@),
{
    let mut i: usize = 0;
    while i < columns.len()
        invariant
            i <= columns.len(),
            forall|j: int| 0 <= j < i ==> column_views(columns@)[j] != column@,
        decreases columns.len() - i,
    {
        if columns[i].same_as(column) {
            assert(column_views(columns@)[i as int] == column@);
            return true;
        }
        i = i + 1;
    }
    false
}

/// The optional columns of a list, in order.
fn optional_of(columns: &Vec<JiraIssueColumn>) -> (r: Vec<JiraIssueColumn>)
    ensures
        column_views(r@) == optional_columns(column_views(columns@)),
{
    let mut out: Vec<JiraIssueColumn> = Vec::new();
    let mut i: usize = 0;
    while i < columns.len()
        invariant
            i <= columns.len(),
            column_views(out@) == optional_columns(column_views(columns@).take(i as int)),
        decreases columns.len() - i,
    {
        proof {
            reveal_with_fuel(Seq::filter, 1);
            assert(column_views(columns@).take(i + 1).drop_last() =~= column_views(columns@).take(i as int));
        }
        if !columns[i].is_fixed() {
            let ghost before = out@;
            out.push(columns[i].copy());
            assert(column_views(out@) =~= column_views(before).push(columns@[i as int]@));
        }
        i = i + 1;
    }
    assert(column_views(columns@).take(i as int) =~= column_views(columns@));
    out
}

fn selector_label(column: &JiraIssueColumn) -> (r: String)
    ensures
        r@ == selector_label_spec(column@),
{
    match column {
        JiraIssueColumn::Field { id, .. } => {
            if str_eq(id.as_str(), "priority") {
                return "Priority".to_owned();
            }
            if str_eq(id.as_str(), "assignee") {
                return "Assignee".to_owned();
            }
        },
        _ => {},
    }
    column.label().to_owned()
}

impl JiraFilteredTreeState {
    /// The invariant: a column picker, when open, is well formed.
    pub closed spec fn wf(&self) -> bool {
        &&& filter_wf(self@.tree.filter)
        &&& match self.column_dropdown {
            Some(d) => d.wf(),
            None => true,
        }
    }

    pub fn new(items: Vec<TreeItem>) -> (r: Self)
        ensures
            r.wf(),
            r@.tree.tree.items == crate::tree::item_views(items@),
            r@.site is None,
            r@.dropdown is None,
            r@.visible == fixed_columns_spec() + seq![
                field_column("assignee"@, "Assignee"@),
                ColumnView::Status,
                field_column("labels"@, "Labels"@),
            ],
            r@.available == optional_columns(r@.visible),
            !r@.pending_yank,
    {
        let default_columns = JiraIssueColumn::default_columns();
        let available_columns = optional_of(&default_columns);
        JiraFilteredTreeState {
            filtered_tree: FilteredTreeState::new(items),
            jira_site: None,
            column_dropdown: None,
            visible_columns: default_columns,
            available_columns,
            pending_yank: false,
        }
    }

    pub fn set_jira_site(&mut self, site: &str)
        ensures
            final(self)@ == (JiraTreeView { site: Some(site@), ..old(self)@ }),
            old(self).wf() ==> final(self).wf(),
    {
        self.jira_site = Some(site.to_owned());
    }

    /// Shows the assignee of an issue by name, or clears it.
    pub fn update_assignee(&mut self, issue_key: &str, assignee_name: Option<String>)
        ensures
            final(self)@ == (JiraTreeView { tree: final(self)@.tree, ..old(self)@ }),
            old(self).wf() ==> final(self).wf(),
            final(self)@.tree == (FilteredTreeView {
                tree: clamp_spec(crate::tree::update_field_spec(old(self)@.tree.tree, issue_key@, "assignee"@, crate::tree::opt_view(assignee_name))),
                ..old(self)@.tree
            }),
    {
        self.filtered_tree.update_item_field(issue_key, "assignee", assignee_name);
    }

    /// Offers `columns` (without the fixed ones) in the column picker; an
    /// empty list keeps the current offer.
    pub fn set_available_columns(&mut self, columns: Vec<JiraIssueColumn>)
        ensures
            final(self)@ == (JiraTreeView {
                available: if columns@.len() == 0 { old(self)@.available } else { optional_columns(column_views(columns@)) },
                ..old(self)@
            }),
            old(self).wf() ==> final(self).wf(),
    {
        if columns.len() > 0 {
            self.available_columns = optional_of(&columns);
        }
    }

    pub fn visible_columns(&self) -> (r: &[JiraIssueColumn])
        ensures
            column_views(r@) == self@.visible,
    {
        self.visible_columns.as_slice()
    }

    pub fn column_dropdown(&self) -> (r: Option<&MultiSelectDropdownState<JiraIssueColumn>>)
        ensures
            match r {
                Some(d) => self@.dropdown == Some(d@),
                None => self@.dropdown is None,
            },
    {
        match &self.column_dropdown {
            Some(d) => Some(d),
            None => None,
        }
    }

    pub fn is_column_dropdown_open(&self) -> (r: bool)
        ensures
            r == self@.dropdown is Some,
    {
        self.column_dropdown.is_some()
    }

    pub fn close_column_dropdown(&mut self)
        ensures
            final(self)@ == (JiraTreeView { dropdown: None, ..old(self)@ }),
            old(self).wf() ==> final(self).wf(),
    {
        self.column_dropdown = None;
    }

    pub fn is_column_dropdown_filter_focused(&self) -> (r: bool)
        ensures
            r == match self@.dropdown {
                Some(d) => d.filter.focused,
                None => false,
            },
    {
        match &self.column_dropdown {
            Some(d) => d.is_filter_focused(),
            None => false,
        }
    }

    /// Opens the column picker on the optional columns, with the shown ones
    /// selected, its filter line focused, and at least one kept selected.
    pub fn open_column_dropdown(&mut self)
        requires
            old(self).wf(),
            old(self)@.available.len() < usize::MAX,
        ensures
            final(self).wf(),
            final(self)@ == (JiraTreeView { dropdown: final(self)@.dropdown, ..old(self)@ }),
            final(self)@.dropdown matches Some(d) && picker_options_ok(d.options, old(self)@.available, old(self)@.visible)
                && d.at_least_one && !d.single && d.filter.focused && d.filter.value.len() == 0
                && d.selected_index == 0 && d.scroll == 0 && !d.pending_prefix,
    {
        let mut options: Vec<DropdownOption<JiraIssueColumn>> = Vec::new();
        let mut i: usize = 0;
        while i < self.available_columns.len()
            invariant
                i <= self.available_columns.len(),
                options@.len() == i,
                forall|k: int| 0 <= k < i ==> {
                    &&& (#[trigger] options@[k]).value@ == column_views(self.available_columns@)[k]
                    &&& options@[k].label@ == selector_label_spec(column_views(self.available_columns@)[k])
                    &&& options@[k].selected == column_views(self.visible_columns@).contains(column_views(self.available_columns@)[k])
                },
            decreases self.available_columns.len() - i,
        {
            let column = &self.available_columns[i];
            let option = DropdownOption {
                selected: contains_column(&self.visible_columns, column),
                label: selector_label(column),
                value: column.copy(),
            };
            options.push(option);
            i = i + 1;
        }
        let dropdown = MultiSelectDropdownState::new(options).require_at_least_one_selection().focus_filter();
        self.column_dropdown = Some(dropdown);
    }

    /// The shown columns: the fixed ones, then the selected options of the picker.
    fn sync_visible_columns(&mut self)
        ensures
            final(self)@ == (JiraTreeView {
                visible: match old(self)@.dropdown {
                    Some(d) => fixed_columns_spec() + selected_values(d.options),
                    None => old(self)@.visible,
                },
                ..old(self)@
            }),
            old(self).wf() ==> final(self).wf(),
    {
        let selected = match &self.column_dropdown {
            Some(d) => {
                let options = d.options();
                let mut picked: Vec<JiraIssueColumn> = Vec::new();
                let mut i: usize = 0;
                while i < options.len()
                    invariant
                        i <= options.len(),
                        column_views(picked@) == selected_values(options@.take(i as int)),
                    decreases options.len() - i,
                {
                    assert(options@.take(i + 1).drop_last() =~= options@.take(i as int));
                    if options[i].selected {
                        let ghost before = picked@;
                        picked.push(options[i].value.copy());
                        assert(column_views(picked@) =~= column_views(before).push(options@[i as int].value@));
                    }
                    i = i + 1;
                }
                assert(options@.take(i as int) =~= options@);
                picked
            },
            None => {
                return;
            },
        };
        let mut visible = JiraIssueColumn::fixed_columns();
        let ghost fixed = column_views(visible@);
        let mut rest = selected;
        let ghost picked = column_views(rest@);
        visible.append(&mut rest);
        assert(column_views(visible@) =~= fixed + picked);
        self.visible_columns = visible;
    }

    /// The link to the selected issue on the Jira site.
    pub fn selected_issue_url(&self) -> (r: Option<String>)
        requires
            self@.tree.tree.items.len() <= usize::MAX,
        ensures
            crate::tree::opt_view(r) == issue_url(self@),
    {
        let site = match &self.jira_site {
            Some(s) => s,
            None => {
                return None;
            },
        };
        let rows = self.filtered_tree.visible_rows();
        let selected = self.filtered_tree.selected_item_index();
        if selected >= rows.len() {
            return None;
        }
        proof {
            crate::tree::lemma_rows_valid(self@.tree.tree);
        }
        let items = self.filtered_tree.items();
        let row = rows[selected];
        assert(crate::tree::item_views(items@)[row.item_index as int] == items@[row.item_index as int]@);
        let id = &items[row.item_index].id;
        let mut text = chars_of(site.as_str());
        let ghost whole = text@;
        let mut end = text.len();
        assert(whole.take(end as int) =~= whole);
        while end > 0 && text[end - 1] == '/'
            invariant
                end <= text.len(),
                text@ == whole,
                without_trailing_slashes(whole) == without_trailing_slashes(whole.take(end as int)),
            decreases end,
        {
            assert(whole.take(end as int).drop_last() =~= whole.take(end - 1));
            end = end - 1;
        }
        assert(whole.take(text.len() as int) =~= whole);
        text.truncate(end);
        assert(text@ =~= whole.take(end as int));
        let mut tail = chars_of("/browse/");
        text.append(&mut tail);
        let mut key = chars_of(id.as_str());
        text.append(&mut key);
        Some(string_from_chars(&text))
    }

    fn dispatch_yank_prefix(&mut self) -> (r: Option<JiraFilteredTreeEvent>)
        requires
            old(self)@.tree.tree.items.len() <= usize::MAX,
        ensures
            final(self)@ == (JiraTreeView { pending_yank: !old(self)@.pending_yank, ..old(self)@ }),
            old(self)@.pending_yank ==> match r {
                Some(JiraFilteredTreeEvent::IssueUrlCopyRequested(url)) => issue_url(old(self)@) == Some(url@),
                Some(JiraFilteredTreeEvent::IssueUrlCopyUnavailable(message)) => issue_url(old(self)@) is None
                    && message@ == "No selected issue or Jira site is available."@,
                _ => false,
            },
            !old(self)@.pending_yank ==> r is None,
            old(self).wf() ==> final(self).wf(),
    {
        if self.pending_yank {
            self.pending_yank = false;
            match self.selected_issue_url() {
                Some(url) => Some(JiraFilteredTreeEvent::IssueUrlCopyRequested(url)),
                None => Some(JiraFilteredTreeEvent::IssueUrlCopyUnavailable("No selected issue or Jira site is available.".to_owned())),
            }
        } else {
            self.pending_yank = true;
            None
        }
    }

    /// Handles an action of the issue list: tree and filter actions go to
    /// the tree, picker actions to the open picker (a toggle re-lays the
    /// columns and reports them), `OpenColumns` opens or closes the picker,
    /// and the yank prefix copies the selected issue's link on its second press.
    pub fn dispatch(&mut self, action: JiraFilteredTreeAction) -> (r: Option<JiraFilteredTreeEvent>)
        requires
            old(self).wf(),
            old(self)@.tree.tree.items.len() <= usize::MAX,
            old(self)@.available.len() < usize::MAX,
            match old(self)@.dropdown {
                Some(d) => d.filter.value.len() < isize::MAX,
                None => true,
            },
        ensures
            final(self).wf(),
            match action {
                JiraFilteredTreeAction::FilteredTree(a) => {
                    &&& final(self)@ == (JiraTreeView {
                        tree: filtered_tree_step(old(self)@.tree, a).0,
                        pending_yank: false,
                        ..old(self)@
                    })
                    &&& jira_event_view(r) == filtered_tree_step(old(self)@.tree, a).1
                },
                JiraFilteredTreeAction::Dropdown(a) => match old(self)@.dropdown {
                    None => final(self)@ == old(self)@ && r is None,
                    Some(d) => {
                        let (d2, e) = dropdown_step(d, a);
                        match e {
                            Some(DropdownEvent::Closed) => final(self)@ == (JiraTreeView { dropdown: None, ..old(self)@ }) && r is None,
                            Some(DropdownEvent::Toggled(_)) => {
                                &&& final(self)@ == (JiraTreeView {
                                    dropdown: Some(d2),
                                    visible: fixed_columns_spec() + selected_values(d2.options),
                                    ..old(self)@
                                })
                                &&& r matches Some(JiraFilteredTreeEvent::ColumnsChanged(columns))
                                    && column_views(columns@) == final(self)@.visible
                            },
                            None => final(self)@ == (JiraTreeView { dropdown: Some(d2), ..old(self)@ }) && r is None,
                        }
                    },
                },
                JiraFilteredTreeAction::OpenColumns => {
                    &&& r is None
                    &&& !final(self)@.pending_yank
                    &&& final(self)@.tree == old(self)@.tree
                    &&& final(self)@.visible == old(self)@.visible
                    &&& final(self)@.available == old(self)@.available
                    &&& old(self)@.dropdown is Some ==> final(self)@.dropdown is None
                    &&& old(self)@.dropdown is None ==> (final(self)@.dropdown matches Some(d)
                        && picker_options_ok(d.options, old(self)@.available, old(self)@.visible)
                        && d.at_least_one && d.filter.focused)
                },
                JiraFilteredTreeAction::YankIssueUrlPrefix => {
                    &&& final(self)@ == (JiraTreeView { pending_yank: !old(self)@.pending_yank, ..old(self)@ })
                    &&& old(self)@.pending_yank ==> match r {
                        Some(JiraFilteredTreeEvent::IssueUrlCopyRequested(url)) => issue_url(old(self)@) == Some(url@),
                        Some(JiraFilteredTreeEvent::IssueUrlCopyUnavailable(message)) => issue_url(old(self)@) is None,
                        _ => false,
                    }
                    &&& !old(self)@.pending_yank ==> r is None
                },
            },
    {
        match action {
            JiraFilteredTreeAction::FilteredTree(a) => {
                self.pending_yank = false;
                let e = self.filtered_tree.dispatch(a);
                map_tree_event(e)
            },
            JiraFilteredTreeAction::Dropdown(a) => {
                let mut dropdown = match self.column_dropdown.take() {
                    Some(d) => d,
                    None => {
                        return None;
                    },
                };
                let e = dropdown.dispatch(a);
                match e {
                    Some(DropdownEvent::Closed) => {
                        self.column_dropdown = None;
                        None
                    },
                    Some(DropdownEvent::Toggled(_)) => {
                        self.column_dropdown = Some(dropdown);
                        self.sync_visible_columns();
                        let mut copy: Vec<JiraIssueColumn> = Vec::new();
                        let mut i: usize = 0;
                        while i < self.visible_columns.len()
                            invariant
                                i <= self.visible_columns.len(),
                                column_views(copy@) == column_views(self.visible_columns@).take(i as int),
                            decreases self.visible_columns.len() - i,
                        {
                            let ghost before = copy@;
                            copy.push(self.visible_columns[i].copy());
                            assert(column_views(copy@) =~= column_views(before).push(self.visible_columns@[i as int]@));
                            i = i + 1;
                            assert(column_views(copy@) =~= column_views(self.visible_columns@).take(i as int));
                        }
                        assert(column_views(self.visible_columns@).take(i as int) =~= column_views(self.visible_columns@));
                        Some(JiraFilteredTreeEvent::ColumnsChanged(copy))
                    },
                    None => {
                        self.column_dropdown = Some(dropdown);
                        None
                    },
                }
            },
            JiraFilteredTreeAction::OpenColumns => {
                self.pending_yank = false;
                if self.column_dropdown.is_some() {
                    self.column_dropdown = None;
                } else {
                    self.open_column_dropdown();
                }
                None
            },
            JiraFilteredTreeAction::YankIssueUrlPrefix => self.dispatch_yank_prefix(),
        }
    }

    /// Applies an edit to the filter line; a changed search is reported.
    pub fn dispatch_filter(&mut self, action: FilterAction) -> (r: Option<JiraFilteredTreeEvent>)
        requires
            old(self).wf(),
            old(self)@.tree.filter.value.len() < isize::MAX,
        ensures
            final(self).wf(),
            final(self)@ == (JiraTreeView { tree: filter_edit_step(old(self)@.tree, action).0, ..old(self)@ }),
            jira_event_view(r) == filter_edit_step(old(self)@.tree, action).1,
    {
        let e = self.filtered_tree.dispatch_filter(action);
        map_tree_event(e)
    }

    pub fn items(&self) -> (r: &[TreeItem])
        ensures
            crate::tree::item_views(r@) == self@.tree.tree.items,
    {
        self.filtered_tree.items()
    }

    /// Number of currently-loaded root items (those without a parent).
    pub fn root_count(&self) -> (r: usize)
        ensures
            r == parentless_count(self@.tree.tree.items),
    {
        self.filtered_tree.root_count()
    }

    pub fn set_items(&mut self, items: Vec<TreeItem>, preserve_expanded: &IdSet)
        ensures
            final(self)@ == (JiraTreeView { tree: final(self)@.tree, ..old(self)@ }),
            old(self).wf() ==> final(self).wf(),
            final(self)@.tree == (FilteredTreeView {
                tree: clamp_spec(crate::tree::set_items_spec(old(self)@.tree.tree, crate::tree::item_views(items@), preserve_expanded@)),
                ..old(self)@.tree
            }),
    {
        self.filtered_tree.set_items(items, preserve_expanded)
    }

    pub fn set_flat(&mut self, flat: bool)
        ensures
            final(self)@ == (JiraTreeView { tree: final(self)@.tree, ..old(self)@ }),
            old(self).wf() ==> final(self).wf(),
            final(self)@.tree == (FilteredTreeView { tree: TreeView { flat, ..old(self)@.tree.tree }, ..old(self)@.tree }),
    {
        self.filtered_tree.set_flat(flat)
    }

    pub fn add_children(&mut self, parent_id: &str, children: Vec<TreeItem>)
        ensures
            final(self)@ == (JiraTreeView { tree: final(self)@.tree, ..old(self)@ }),
            old(self).wf() ==> final(self).wf(),
            final(self)@.tree == (FilteredTreeView {
                tree: crate::tree::add_children_spec(old(self)@.tree.tree, parent_id@, crate::tree::item_views(children@)),
                ..old(self)@.tree
            }),
    {
        self.filtered_tree.add_children(parent_id, children)
    }

    pub fn append_items(&mut self, items: Vec<TreeItem>)
        ensures
            final(self)@ == (JiraTreeView { tree: final(self)@.tree, ..old(self)@ }),
            old(self).wf() ==> final(self).wf(),
            final(self)@.tree == (FilteredTreeView {
                tree: clamp_spec(TreeView {
                    items: crate::tree::appended(old(self)@.tree.tree.items, crate::tree::item_views(items@), items@.len() as int),
                    ..old(self)@.tree.tree
                }),
                ..old(self)@.tree
            }),
    {
        self.filtered_tree.append_items(items)
    }

    pub fn mark_children_failed(&mut self, parent_id: &str)
        ensures
            final(self)@ == (JiraTreeView { tree: final(self)@.tree, ..old(self)@ }),
            old(self).wf() ==> final(self).wf(),
            final(self)@.tree == (FilteredTreeView {
                tree: clamp_spec(TreeView {
                    expanded: crate::tree::set_children_spec(old(self)@.tree.tree, parent_id@, crate::tree::Children::NotLoaded).expanded.remove(parent_id@),
                    ..crate::tree::set_children_spec(old(self)@.tree.tree, parent_id@, crate::tree::Children::NotLoaded)
                }),
                ..old(self)@.tree
            }),
    {
        self.filtered_tree.mark_children_failed(parent_id)
    }

    pub fn reload_children(&mut self, parent_id: &str) -> (r: bool)
        ensures
            final(self)@ == (JiraTreeView { tree: final(self)@.tree, ..old(self)@ }),
            old(self).wf() ==> final(self).wf(),
            ({
                let (t, ok) = crate::tree::reload_children_spec(old(self)@.tree.tree, parent_id@);
                final(self)@.tree == (FilteredTreeView { tree: t, ..old(self)@.tree }) && r == ok
            }),
    {
        self.filtered_tree.reload_children(parent_id)
    }

    pub fn merge_root_items(&mut self, incoming: Vec<TreeItem>)
        ensures
            final(self)@ == (JiraTreeView { tree: final(self)@.tree, ..old(self)@ }),
            old(self).wf() ==> final(self).wf(),
            final(self)@.tree == (FilteredTreeView {
                tree: clamp_spec(TreeView {
                    items: crate::tree::merged(old(self)@.tree.tree.items, crate::tree::item_views(incoming@), incoming@.len() as int),
                    ..old(self)@.tree.tree
                }),
                ..old(self)@.tree
            }),
    {
        self.filtered_tree.merge_root_items(incoming)
    }

    pub fn retain_roots(&mut self, keep: &IdSet)
        ensures
            final(self)@ == (JiraTreeView { tree: final(self)@.tree, ..old(self)@ }),
            old(self).wf() ==> final(self).wf(),
            final(self)@.tree == (FilteredTreeView { tree: crate::tree::retain_roots_spec(old(self)@.tree.tree, keep@), ..old(self)@.tree }),
    {
        self.filtered_tree.retain_roots(keep)
    }

    pub fn begin_soft_reload(&mut self, expanded: &IdSet) -> (r: Vec<String>)
        ensures
            final(self)@ == (JiraTreeView { tree: final(self)@.tree, ..old(self)@ }),
            old(self).wf() ==> final(self).wf(),
            ({
                let (w, fetch) = crate::tree::soft_reload_step(old(self)@.tree.tree, expanded@, old(self)@.tree.tree.items.len() as int);
                &&& crate::tree::string_views(r@) == fetch
                &&& final(self)@.tree == (FilteredTreeView { tree: w, ..old(self)@.tree })
            }),
    {
        self.filtered_tree.begin_soft_reload(expanded)
    }

    pub fn replace_children(&mut self, parent_id: &str, incoming: Vec<TreeItem>)
        ensures
            final(self)@ == (JiraTreeView { tree: final(self)@.tree, ..old(self)@ }),
            old(self).wf() ==> final(self).wf(),
            final(self)@.tree == (FilteredTreeView {
                tree: crate::tree::replace_children_spec(old(self)@.tree.tree, parent_id@, crate::tree::item_views(incoming@)),
                ..old(self)@.tree
            }),
    {
        self.filtered_tree.replace_children(parent_id, incoming)
    }

    pub fn mark_children_loaded(&mut self, parent_id: &str)
        ensures
            final(self)@ == (JiraTreeView { tree: final(self)@.tree, ..old(self)@ }),
            old(self).wf() ==> final(self).wf(),
            final(self)@.tree == (FilteredTreeView {
                tree: crate::tree::set_children_spec(old(self)@.tree.tree, parent_id@, crate::tree::Children::Loaded),
                ..old(self)@.tree
            }),
    {
        self.filtered_tree.mark_children_loaded(parent_id)
    }

    pub fn expanded_item_ids(&self) -> (r: &IdSet)
        ensures
            r@ == self@.tree.tree.expanded,
    {
        self.filtered_tree.expanded_item_ids()
    }

    pub fn expanded_descendant_ids(&self, parent_id: &str) -> (r: IdSet)
        ensures
            r@ == self@.tree.tree.expanded.intersect(crate::tree::descendants(self@.tree.tree.items, parent_id@)),
    {
        self.filtered_tree.expanded_descendant_ids(parent_id)
    }

    pub fn contains_item(&self, id: &str) -> (r: bool)
        ensures
            r == crate::tree::has_id(self@.tree.tree.items, id@),
    {
        self.filtered_tree.contains_item(id)
    }

    pub fn nodes_needing_child_reload(&mut self, restore: &IdSet) -> (r: Vec<String>)
        ensures
            final(self)@ == (JiraTreeView { tree: final(self)@.tree, ..old(self)@ }),
            old(self).wf() ==> final(self).wf(),
            ({
                let (w, fetch) = crate::tree::restore_step(old(self)@.tree.tree, restore@, old(self)@.tree.tree.items.len() as int);
                &&& crate::tree::string_views(r@) == fetch
                &&& final(self)@.tree == (FilteredTreeView {
                    tree: if fetch.len() > 0 { clamp_spec(w) } else { w },
                    ..old(self)@.tree
                })
            }),
    {
        self.filtered_tree.nodes_needing_child_reload(restore)
    }

    pub fn any_loading(&self) -> (r: bool)
        ensures
            r == exists|i: int|
                0 <= i < self@.tree.tree.items.len() && (#[trigger] self@.tree.tree.items[i]).children
                    == crate::tree::Children::Loading,
    {
        self.filtered_tree.any_loading()
    }

    pub fn view_mode(&self) -> (r: FilteredTreeViewMode)
        ensures
            r == self@.tree.view_mode,
    {
        self.filtered_tree.view_mode()
    }

    pub fn set_view_mode(&mut self, view_mode: FilteredTreeViewMode)
        ensures
            final(self)@ == (JiraTreeView { tree: final(self)@.tree, ..old(self)@ }),
            old(self).wf() ==> final(self).wf(),
            final(self)@.tree == (FilteredTreeView { view_mode, ..old(self)@.tree }),
    {
        self.filtered_tree.set_view_mode(view_mode)
    }

    pub fn selected_item_index(&self) -> (r: usize)
        ensures
            r == self@.tree.tree.selected_row,
    {
        self.filtered_tree.selected_item_index()
    }

    pub fn select_item_index(&mut self, index: usize)
        ensures
            final(self)@ == (JiraTreeView { tree: final(self)@.tree, ..old(self)@ }),
            old(self).wf() ==> final(self).wf(),
            final(self)@.tree.filter == old(self)@.tree.filter,
            final(self)@.tree.view_mode == old(self)@.tree.view_mode,
            final(self)@.tree.tree == ({
                let rows = rows_of(old(self)@.tree.tree);
                if rows.len() == 0 {
                    TreeView { selected_row: 0, selected_id: None, ..old(self)@.tree.tree }
                } else {
                    TreeView {
                        manual_scroll: false,
                        ..crate::tree::sync_spec(
                            TreeView {
                                selected_row: crate::tree::min_nat(index as nat, (rows.len() - 1) as nat),
                                ..old(self)@.tree.tree
                            },
                            rows,
                        )
                    }
                }
            }),
    {
        self.filtered_tree.select_item_index(index)
    }

    pub fn selected_item_id(&self) -> (r: Option<&str>)
        ensures
            match r {
                Some(s) => self@.tree.tree.selected_id == Some(s@),
                None => self@.tree.tree.selected_id is None,
            },
    {
        self.filtered_tree.selected_item_id()
    }

    pub fn selected_root_ancestor_id(&self) -> (r: Option<String>)
        ensures
            crate::tree::opt_view(r) == match self@.tree.tree.selected_id {
                Some(id) => Some(crate::tree::root_ancestor(self@.tree.tree.items, id, self@.tree.tree.items.len())),
                None => None::<Seq<char>>,
            },
    {
        self.filtered_tree.selected_root_ancestor_id()
    }

    pub fn select_item_by_id(&mut self, id: &str)
        ensures
            final(self)@ == (JiraTreeView { tree: final(self)@.tree, ..old(self)@ }),
            old(self).wf() ==> final(self).wf(),
            final(self)@.tree == (FilteredTreeView {
                tree: if crate::tree::has_id(old(self)@.tree.tree.items, id@) {
                    clamp_spec(TreeView { selected_id: Some(id@), ..old(self)@.tree.tree })
                } else {
                    old(self)@.tree.tree
                },
                ..old(self)@.tree
            }),
    {
        self.filtered_tree.select_item_by_id(id)
    }

    pub fn scroll_offset(&self) -> (r: usize)
        ensures
            r == self@.tree.tree.rendered_scroll,
    {
        self.filtered_tree.scroll_offset()
    }

    pub fn scroll_viewport(&mut self, delta: isize, height: usize)
        ensures
            final(self)@ == (JiraTreeView { tree: final(self)@.tree, ..old(self)@ }),
            old(self).wf() ==> final(self).wf(),
            final(self)@.tree.filter == old(self)@.tree.filter,
            final(self)@.tree.view_mode == old(self)@.tree.view_mode,
            ({
                let count = rows_of(old(self)@.tree.tree).len();
                if count == 0 || height == 0 {
                    final(self)@.tree.tree == (TreeView {
                        scroll: 0,
                        rendered_scroll: 0,
                        manual_scroll: false,
                        ..old(self)@.tree.tree
                    })
                } else {
                    let viewport = if height < count { height as int } else { count as int };
                    let max_scroll = count - viewport;
                    let base = if old(self)@.tree.tree.rendered_scroll < max_scroll {
                        old(self)@.tree.tree.rendered_scroll as int
                    } else {
                        max_scroll
                    };
                    let moved = crate::tree::sat_add_signed(base, delta as int);
                    let next = if moved < max_scroll { moved } else { max_scroll };
                    final(self)@.tree.tree == (TreeView {
                        scroll: next as nat,
                        rendered_scroll: next as nat,
                        manual_scroll: true,
                        ..old(self)@.tree.tree
                    })
                }
            }),
    {
        self.filtered_tree.scroll_viewport(delta, height)
    }

    pub fn filter(&self) -> (r: &str)
        ensures
            r@ == self@.tree.filter.value,
    {
        self.filtered_tree.filter()
    }

    pub fn filter_cursor(&self) -> (r: usize)
        ensures
            r == self@.tree.filter.cursor,
    {
        self.filtered_tree.filter_cursor()
    }

    pub fn filter_state(&self) -> (r: &FilterState)
        ensures
            r@ == self@.tree.filter,
    {
        self.filtered_tree.filter_state()
    }

    pub fn is_filter_focused(&self) -> (r: bool)
        ensures
            r == self@.tree.filter.focused,
    {
        self.filtered_tree.is_filter_focused()
    }

    pub fn visible_rows(&self) -> (r: Vec<TreeRow>)
        ensures
            r@ == rows_of(self@.tree.tree),
    {
        self.filtered_tree.visible_rows()
    }

    /// The rows to draw in a viewport of `height` rows, starting where the
    /// scroll animation stands (`animated_offset`); the settled offset is
    /// recorded as the scroll offset.
    pub fn visible_range(&mut self, height: usize, animated_offset: usize) -> (r: std::ops::Range<usize>)
        ensures
            final(self)@ == (JiraTreeView { tree: final(self)@.tree, ..old(self)@ }),
            old(self).wf() ==> final(self).wf(),
            final(self)@.tree.filter == old(self)@.tree.filter,
            final(self)@.tree.view_mode == old(self)@.tree.view_mode,
            ({
                let t = old(self)@.tree.tree;
                let count = rows_of(t).len() as int;
                if count == 0 || height == 0 {
                    r.start == 0 && r.end == 0 && final(self)@.tree.tree == t
                } else {
                    let viewport = if height < count { height as int } else { count };
                    let max_scroll = count - viewport;
                    let selected = if t.selected_row < count - 1 { t.selected_row as int } else { count - 1 };
                    let offset = if t.manual_scroll {
                        if t.scroll < max_scroll { t.scroll as int } else { max_scroll }
                    } else {
                        let centred = if selected > viewport / 2 { selected - viewport / 2 } else { 0 };
                        if centred < max_scroll { centred } else { max_scroll }
                    };
                    let start = if animated_offset < max_scroll { animated_offset as int } else { max_scroll };
                    &&& final(self)@.tree.tree == (TreeView { rendered_scroll: offset as nat, ..t })
                    &&& r.start == start
                    &&& r.end == if start + viewport < count { start + viewport } else { count }
                }
            }),
    {
        self.filtered_tree.visible_range(height, animated_offset)
    }

    /// Drops focus from the filter line and any half-typed key sequence.
    pub fn clear_transient_input(&mut self)
        ensures
            final(self)@ == (JiraTreeView { tree: final(self)@.tree, ..old(self)@ }),
            old(self).wf() ==> final(self).wf(),
            final(self)@.tree == (FilteredTreeView {
                tree: clamp_spec(TreeView { pending_prefix: false, ..old(self)@.tree.tree }),
                filter: FilterView { focused: false, ..old(self)@.tree.filter },
                ..old(self)@.tree
            }),
    {
        self.filtered_tree.clear_transient_input()
    }
}


proof fn lemma_without_trailing_slashes(site: Seq<char>)
    ensures
        ({
            let t = without_trailing_slashes(site);
            &&& t.len() <= site.len()
            &&& t == site.take(t.len() as int)
            &&& forall|k: int| t.len() <= k < site.len() ==> #[trigger] site[k] == '/'
            &&& (t.len() == 0 || t.last() != '/')
        }),
    decreases site.len(),
{
    if site.len() > 0 && site.last() == '/' {
        lemma_without_trailing_slashes(site.drop_last());
        let t = without_trailing_slashes(site.drop_last());
        assert(site.drop_last().take(t.len() as int) =~= site.take(t.len() as int));
        assert forall|k: int| t.len() <= k < site.len() implies #[trigger] site[k] == '/' by {
            if k < site.len() - 1 {
                assert(site[k] == site.drop_last()[k]);
            }
        }
    } else {
        assert(site.take(site.len() as int) =~= site);
    }
}

/// The copied link is the site with its trailing slashes dropped, then
/// `/browse/`, then the id of the issue on the selected row; there is one
/// whenever the site is known and the selected row is shown.
pub proof fn lemma_issue_url_names_selected_issue(v: JiraTreeView)
    requires
        v.site is Some,
        v.tree.tree.selected_row < rows_of(v.tree.tree).len(),
    ensures
        ({
            let t = v.tree.tree;
            let site = v.site->0;
            let id = t.items[rows_of(t)[t.selected_row as int].item_index as int].id;
            let suffix = "/browse/"@ + id;
            &&& issue_url(v) is Some
            &&& {
                let u = issue_url(v)->0;
                let k = u.len() - suffix.len();
                &&& 0 <= k <= site.len()
                &&& u.skip(k) == suffix
                &&& u.take(k) == site.take(k)
                &&& forall|q: int| k <= q < site.len() ==> #[trigger] site[q] == '/'
                &&& (k == 0 || site[k - 1] != '/')
            }
        }),
{
    let t = v.tree.tree;
    let site = v.site->0;
    let id = t.items[rows_of(t)[t.selected_row as int].item_index as int].id;
    let suffix = "/browse/"@ + id;
    let base = without_trailing_slashes(site);
    lemma_without_trailing_slashes(site);
    let u = base + suffix;
    assert(u.skip(base.len() as int) =~= suffix);
    assert(u.take(base.len() as int) =~= base);
}

} // verus!
