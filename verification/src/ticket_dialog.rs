//! The ticket dialog: one issue's details, shown on tabs.
use vstd::prelude::*;
use crate::actions::TicketDialogAction;
use crate::collections::FieldMap;
use crate::models::{decimal, decimal_chars, IssueSummary, TimelineEpic, TimelineIssue};
use crate::text::{chars_of, string_from_chars};
use crate::tree::TreeItem;

verus! {

#[derive(Debug, Clone, Copy, PartialEq, Eq, Structural)]
pub enum TicketDialogTab {
    Overview,
    Properties,
    Subtasks,
    LinkedWorkItems,
}

pub open spec fn dialog_tab_index(tab: TicketDialogTab) -> nat {
    match tab {
        TicketDialogTab::Overview => 0,
        TicketDialogTab::Properties => 1,
        TicketDialogTab::Subtasks => 2,
        TicketDialogTab::LinkedWorkItems => 3,
    }
}

pub open spec fn dialog_tab_at(i: int) -> TicketDialogTab {
    if i == 0 {
        TicketDialogTab::Overview
    } else if i == 1 {
        TicketDialogTab::Properties
    } else if i == 2 {
        TicketDialogTab::Subtasks
    } else {
        TicketDialogTab::LinkedWorkItems
    }
}

impl TicketDialogTab {
    /// Every tab, in display order.
    pub fn all() -> (r: [TicketDialogTab; 4])
        ensures
            r@ == seq![TicketDialogTab::Overview, TicketDialogTab::Properties, TicketDialogTab::Subtasks, TicketDialogTab::LinkedWorkItems],
    {
        [TicketDialogTab::Overview, TicketDialogTab::Properties, TicketDialogTab::Subtasks, TicketDialogTab::LinkedWorkItems]
    }

    pub fn label(self) -> (r: &'static str)
        ensures
            r == match self {
                TicketDialogTab::Overview => "Overview",
                TicketDialogTab::Properties => "Properties",
                TicketDialogTab::Subtasks => "Subtasks",
                TicketDialogTab::LinkedWorkItems => "Linked work items",
            },
    {
        match self {
            TicketDialogTab::Overview => "Overview",
            TicketDialogTab::Properties => "Properties",
            TicketDialogTab::Subtasks => "Subtasks",
            TicketDialogTab::LinkedWorkItems => "Linked work items",
        }
    }
}

#[derive(Debug, Clone, PartialEq, Eq)]
pub struct TicketDialogIssue {
    pub key: String,
    pub summary: String,
    pub status: String,
    pub issue_type: String,
    pub parent_key: Option<String>,
    pub parent_issue_type: Option<String>,
    pub fields: FieldMap,
}

#[derive(Debug, Clone, PartialEq, Eq)]
pub struct TicketDialogState {
    pub ticket: TicketDialogIssue,
    pub selected_tab: TicketDialogTab,
}

impl TicketDialogState {
    /// A dialog on the overview of `ticket`.
    pub fn new(ticket: TicketDialogIssue) -> (r: Self)
        ensures
            r.ticket == ticket,
            r.selected_tab == TicketDialogTab::Overview,
    {
        TicketDialogState { ticket, selected_tab: TicketDialogTab::Overview }
    }

    /// Moves to the previous or next tab, wrapping around at either end.
    pub fn dispatch(&mut self, action: TicketDialogAction)
        ensures
            final(self).ticket == old(self).ticket,
            final(self).selected_tab == dialog_tab_at(match action {
                TicketDialogAction::PreviousTab => if dialog_tab_index(old(self).selected_tab) == 0 { 3 } else { dialog_tab_index(old(self).selected_tab) - 1 },
                TicketDialogAction::NextTab => ((dialog_tab_index(old(self).selected_tab) + 1) % 4) as int,
            }),
    {
        let current: usize = match self.selected_tab {
            TicketDialogTab::Overview => 0,
            TicketDialogTab::Properties => 1,
            TicketDialogTab::Subtasks => 2,
            TicketDialogTab::LinkedWorkItems => 3,
        };
        let next = match action {
            TicketDialogAction::PreviousTab => if current == 0 { 3 } else { current - 1 },
            TicketDialogAction::NextTab => (current + 1) % 4,
        };
        let tabs = TicketDialogTab::all();
        self.selected_tab = tabs[next];
    }
}

fn clone_opt(o: &Option<String>) -> (r: Option<String>)
    ensures
        r == *o,
{
    match o {
        Some(s) => Some(s.clone()),
        None => None,
    }
}

/// The kind of the first item with id `key`.
pub open spec fn tree_parent_kind(items: Seq<TreeItem>, key: Seq<char>) -> Option<String>
    decreases items.len(),
{
    if items.len() == 0 {
        None
    } else if items[0].id@ == key {
        Some(items[0].kind)
    } else {
        tree_parent_kind(items.drop_first(), key)
    }
}

/// The type of the first issue with key `key`.
pub open spec fn issue_parent_type(issues: Seq<IssueSummary>, key: Seq<char>) -> Option<String>
    decreases issues.len(),
{
    if issues.len() == 0 {
        None
    } else if issues[0].key@ == key {
        Some(issues[0].issue_type)
    } else {
        issue_parent_type(issues.drop_first(), key)
    }
}

fn parent_kind(items: &[TreeItem], key: &String) -> (r: Option<String>)
    ensures
        r == tree_parent_kind(items@, key@),
{
    let mut i: usize = 0;
    assert(items@.skip(0) =~= items@);
    while i < items.len()
        invariant
            i <= items.len(),
            tree_parent_kind(items@, key@) == tree_parent_kind(items@.skip(i as int), key@),
        decreases items.len() - i,
    {
        assert(items@.skip(i as int)[0] == items@[i as int]);
        assert(items@.skip(i as int).drop_first() =~= items@.skip(i + 1));
        if crate::text::str_eq(items[i].id.as_str(), key.as_str()) {
            return Some(items[i].kind.clone());
        }
        i = i + 1;
    }
    None
}

fn parent_type(issues: &[IssueSummary], key: &String) -> (r: Option<String>)
    ensures
        r == issue_parent_type(issues@, key@),
{
    let mut i: usize = 0;
    assert(issues@.skip(0) =~= issues@);
    while i < issues.len()
        invariant
            i <= issues.len(),
            issue_parent_type(issues@, key@) == issue_parent_type(issues@.skip(i as int), key@),
        decreases issues.len() - i,
    {
        assert(issues@.skip(i as int)[0] == issues@[i as int]);
        assert(issues@.skip(i as int).drop_first() =~= issues@.skip(i + 1));
        if crate::text::str_eq(issues[i].key.as_str(), key.as_str()) {
            return Some(issues[i].issue_type.clone());
        }
        i = i + 1;
    }
    None
}

/// The dialog's view of a list item; its parent's type comes from the loaded items.
pub fn ticket_from_tree_item(item: &TreeItem, items: &[TreeItem]) -> (r: TicketDialogIssue)
    ensures
        r.key == item.id && r.summary == item.label && r.status == item.status,
        r.issue_type == item.kind && r.parent_key == item.parent_id,
        r.parent_issue_type == match item.parent_id {
            Some(p) => tree_parent_kind(items@, p@),
            None => None,
        },
        r.fields@ == item.field_values@,
{
    let parent_issue_type = match &item.parent_id {
        Some(parent_key) => parent_kind(items, parent_key),
        None => None,
    };
    TicketDialogIssue {
        key: item.id.clone(),
        summary: item.label.clone(),
        status: item.status.clone(),
        issue_type: item.kind.clone(),
        parent_key: clone_opt(&item.parent_id),
        parent_issue_type,
        fields: item.field_values.copy(),
    }
}

/// The dialog's view of a board issue; its parent's type comes from the board's issues.
pub fn ticket_from_issue_summary(issue: &IssueSummary, issues: &[IssueSummary]) -> (r: TicketDialogIssue)
    ensures
        r.key == issue.key && r.summary == issue.summary && r.status == issue.status,
        r.issue_type == issue.issue_type && r.parent_key == issue.parent_key,
        r.parent_issue_type == match issue.parent_key {
            Some(p) => issue_parent_type(issues@, p@),
            None => None,
        },
        r.fields@ == issue.field_values@,
{
    let parent_issue_type = match &issue.parent_key {
        Some(parent_key) => parent_type(issues, parent_key),
        None => None,
    };
    TicketDialogIssue {
        key: issue.key.clone(),
        summary: issue.summary.clone(),
        status: issue.status.clone(),
        issue_type: issue.issue_type.clone(),
        parent_key: clone_opt(&issue.parent_key),
        parent_issue_type,
        fields: issue.field_values.copy(),
    }
}

/// The dialog's view of an epic on the timeline: its progress and how many
/// issues it holds.
pub fn ticket_from_timeline_epic(epic: &TimelineEpic) -> (r: TicketDialogIssue)
    requires
        epic.stats.total_spec() <= u32::MAX,
    ensures
        r.key == epic.key && r.summary == epic.summary && r.status == epic.status,
        r.issue_type@ == "Epic"@,
        r.parent_key is None && r.parent_issue_type is None,
        r.fields@ == Map::<Seq<char>, Seq<char>>::empty()
            .insert("Progress"@, decimal(epic.stats.percent_spec() as nat) + "% done"@)
            .insert("Subtasks"@, decimal(epic.children@.len())),
{
    let mut fields = FieldMap::new();
    let mut progress = decimal_chars(epic.stats.percent_done() as u64);
    let mut tail = chars_of("% done");
    progress.append(&mut tail);
    fields.insert("Progress".to_owned(), string_from_chars(&progress));
    fields.insert("Subtasks".to_owned(), string_from_chars(&decimal_chars(epic.children.len() as u64)));
    TicketDialogIssue {
        key: epic.key.clone(),
        summary: epic.summary.clone(),
        status: epic.status.clone(),
        issue_type: "Epic".to_owned(),
        parent_key: None,
        parent_issue_type: None,
        fields,
    }
}

/// The dialog's view of an issue of an epic on the timeline: the epic is its
/// parent, and it counts the sprints it sits in.
pub fn ticket_from_timeline_issue(issue: &TimelineIssue, epic: &TimelineEpic) -> (r: TicketDialogIssue)
    ensures
        r.key == issue.key && r.summary == issue.summary && r.status == issue.status,
        r.issue_type == issue.issue_type,
        r.parent_key == Some(epic.key),
        r.parent_issue_type matches Some(t) && t@ == "Epic"@,
        r.fields@ == Map::<Seq<char>, Seq<char>>::empty().insert("Sprint count"@, decimal(issue.sprint_ids@.len())),
{
    let mut fields = FieldMap::new();
    fields.insert("Sprint count".to_owned(), string_from_chars(&decimal_chars(issue.sprint_ids.len() as u64)));
    TicketDialogIssue {
        key: issue.key.clone(),
        summary: issue.summary.clone(),
        status: issue.status.clone(),
        issue_type: issue.issue_type.clone(),
        parent_key: Some(epic.key.clone()),
        parent_issue_type: Some("Epic".to_owned()),
        fields,
    }
}


/// The next tab and then the previous one return to the tab one started on.
pub proof fn lemma_dialog_tabs_wrap(tab: TicketDialogTab)
    ensures
        dialog_tab_at(if dialog_tab_index(dialog_tab_at(((dialog_tab_index(tab) + 1) % 4) as int)) == 0 { 3 } else {
            dialog_tab_index(dialog_tab_at(((dialog_tab_index(tab) + 1) % 4) as int)) - 1
        }) == tab,
{
}
} // verus!
