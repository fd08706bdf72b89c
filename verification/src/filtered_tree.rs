//! A tree with a filter line above it: tree actions go to the tree, and
//! filter edits turn into search events for the caller.
use vstd::prelude::*;
use crate::collections::IdSet;
use crate::filter::{filter_step, filter_wf, FilterAction, FilterEvent, FilterState, FilterView};
use crate::tree::{
    clamp_spec, ItemView, TreeAction, TreeEvent, TreeItem, TreeRow, TreeState, TreeView,
    rows_of, tree_step,
};

verus! {

#[derive(Debug, Clone, Copy, PartialEq, Eq, Structural)]
pub enum FilteredTreeViewMode {
    List,
    Table,
}

#[derive(Debug, Clone, Copy, PartialEq, Eq, Structural)]
pub enum FilteredTreeAction {
    Tree(TreeAction),
    FocusFilter,
    ClearFilter,
}

#[derive(Debug, Clone, PartialEq, Eq)]
pub enum FilteredTreeEvent {
    Quit,
    /// The selected item was expanded but its children are not loaded yet.
    LoadChildren(String),
    /// The filter text changed; the new value should drive a server search.
    FilterChanged(String),
    /// The filter was cleared; browse state should be restored.
    FilterCleared,
}

/// The mathematical content of an event.
#[verifier::ext_equal]
pub enum FilteredTreeEventView {
    Quit,
    LoadChildren(Seq<char>),
    FilterChanged(Seq<char>),
    FilterCleared,
}

pub open spec fn event_view(e: Option<FilteredTreeEvent>) -> Option<FilteredTreeEventView> {
    match e {
        Some(FilteredTreeEvent::Quit) => Some(FilteredTreeEventView::Quit),
        Some(FilteredTreeEvent::LoadChildren(id)) => Some(FilteredTreeEventView::LoadChildren(id@)),
        Some(FilteredTreeEvent::FilterChanged(v)) => Some(FilteredTreeEventView::FilterChanged(v@)),
        Some(FilteredTreeEvent::FilterCleared) => Some(FilteredTreeEventView::FilterCleared),
        None => None,
    }
}

#[derive(Debug, Clone, PartialEq, Eq)]
pub struct FilteredTreeState {
    tree: TreeState,
    filter: FilterState,
    view_mode: FilteredTreeViewMode,
}

#[verifier::ext_equal]
pub struct FilteredTreeView {
    pub tree: TreeView,
    pub filter: FilterView,
    pub view_mode: FilteredTreeViewMode,
}

impl View for FilteredTreeState {
    type V = FilteredTreeView;

    closed spec fn view(&self) -> FilteredTreeView {
        FilteredTreeView { tree: self.tree@, filter: self.filter@, view_mode: self.view_mode }
    }
}

/// Number of items without a parent.
pub open spec fn parentless_count(items: Seq<ItemView>) -> nat
    decreases items.len(),
{
    if items.len() == 0 {
        0
    } else {
        parentless_count(items.drop_last()) + if items.last().parent is None { 1nat } else { 0 }
    }
}

/// What one action does to a filtered tree, and the event it reports.
pub open spec fn filtered_tree_step(v: FilteredTreeView, action: FilteredTreeAction) -> (
    FilteredTreeView,
    Option<FilteredTreeEventView>,
) {
    match action {
        FilteredTreeAction::Tree(a) => {
            let (t, id) = tree_step(v.tree, a);
            (
                FilteredTreeView { tree: t, ..v },
                match id {
                    Some(i) => Some(FilteredTreeEventView::LoadChildren(i)),
                    None => None,
                },
            )
        },
        FilteredTreeAction::FocusFilter => (
            FilteredTreeView {
                tree: TreeView { pending_prefix: false, ..v.tree },
                filter: FilterView { focused: true, cursor: v.filter.value.len(), ..v.filter },
                ..v
            },
            None,
        ),
        FilteredTreeAction::ClearFilter => (
            FilteredTreeView {
                filter: FilterView { value: Seq::empty(), focused: false, cursor: 0 },
                ..v
            },
            if v.filter.value.len() > 0 { Some(FilteredTreeEventView::FilterCleared) } else { None },
        ),
    }
}

/// What a filter edit does, and the search event it reports: a changed,
/// non-empty value is searched for, an emptied one clears the search.
pub open spec fn filter_edit_step(v: FilteredTreeView, action: FilterAction) -> (
    FilteredTreeView,
    Option<FilteredTreeEventView>,
) {
    if action == FilterAction::Quit {
        (v, Some(FilteredTreeEventView::Quit))
    } else {
        let (f, e) = filter_step(v.filter, action);
        (
            FilteredTreeView { filter: f, ..v },
            match e {
                Some(FilterEvent::Changed) => if f.value.len() == 0 {
                    Some(FilteredTreeEventView::FilterCleared)
                } else {
                    Some(FilteredTreeEventView::FilterChanged(f.value))
                },
                _ => None,
            },
        )
    }
}

impl FilteredTreeState {
    /// A well-formed state: the filter's cursor lies within its text.
    pub open spec fn wf(&self) -> bool {
        filter_wf(self@.filter)
    }

    pub fn new(items: Vec<TreeItem>) -> (r: Self)
        ensures
            r.wf(),
            r@.tree.items == crate::tree::item_views(items@),
            r@.tree.expanded == Set::<Seq<char>>::empty(),
            r@.tree.selected_row == 0,
            r@.tree.selected_id == if items@.len() > 0 {
                Some(items@[0].id@)
            } else {
                None::<Seq<char>>
            },
            r@.tree.scroll == 0,
            r@.tree.rendered_scroll == 0,
            !r@.tree.manual_scroll,
            !r@.tree.pending_prefix,
            !r@.tree.flat,
            r@.filter == (FilterView { value: Seq::empty(), focused: false, cursor: 0 }),
            r@.view_mode == FilteredTreeViewMode::List,
    {
        let tree = TreeState::new(items);
        FilteredTreeState { tree, filter: FilterState::default(), view_mode: FilteredTreeViewMode::List }
    }

    pub fn items(&self) -> (r: &[TreeItem])
        ensures
            crate::tree::item_views(r@) == self@.tree.items,
    {
        self.tree.items()
    }

    /// Number of currently-loaded root items (those without a parent).
    pub fn root_count(&self) -> (r: usize)
        ensures
            r == parentless_count(self@.tree.items),
    {
        let items = self.tree.items();
        let mut count: usize = 0;
        let mut i: usize = 0;
        while i < items.len()
            invariant
                i <= items.len(),
                crate::tree::item_views(items@) == self@.tree.items,
                count == parentless_count(self@.tree.items.take(i as int)),
                count <= i,
            decreases items.len() - i,
        {
            assert(self@.tree.items.take(i + 1).drop_last() =~= self@.tree.items.take(i as int));
            if items[i].parent_id.is_none() {
                count = count + 1;
            }
            i = i + 1;
        }
        assert(self@.tree.items.take(i as int) =~= self@.tree.items);
        count
    }

    pub fn update_item_field(&mut self, item_id: &str, field_id: &str, value: Option<String>)
        ensures
            final(self)@ == (FilteredTreeView {
                tree: clamp_spec(crate::tree::update_field_spec(old(self)@.tree, item_id@, field_id@, crate::tree::opt_view(value))),
                ..old(self)@
            }),
    {
        self.tree.update_item_field(item_id, field_id, value);
        self.tree.clamp_selection();
    }

    pub fn update_item_status(&mut self, item_id: &str, status: String, status_id: Option<String>)
        ensures
            final(self)@ == (FilteredTreeView {
                tree: clamp_spec(crate::tree::update_status_spec(old(self)@.tree, item_id@, status@, crate::tree::opt_view(status_id))),
                ..old(self)@
            }),
    {
        self.tree.update_item_status(item_id, status, status_id);
        self.tree.clamp_selection();
    }

    pub fn set_items(&mut self, items: Vec<TreeItem>, preserve_expanded: &IdSet)
        ensures
            final(self)@ == (FilteredTreeView {
                tree: clamp_spec(crate::tree::set_items_spec(old(self)@.tree, crate::tree::item_views(items@), preserve_expanded@)),
                ..old(self)@
            }),
    {
        self.tree.set_items(items, preserve_expanded);
        self.tree.clamp_selection();
    }

    pub fn set_flat(&mut self, flat: bool)
        ensures
            final(self)@ == (FilteredTreeView { tree: TreeView { flat, ..old(self)@.tree }, ..old(self)@ }),
    {
        self.tree.set_flat(flat);
    }

    pub fn add_children(&mut self, parent_id: &str, children: Vec<TreeItem>)
        ensures
            final(self)@ == (FilteredTreeView {
                tree: crate::tree::add_children_spec(old(self)@.tree, parent_id@, crate::tree::item_views(children@)),
                ..old(self)@
            }),
    {
        self.tree.add_children(parent_id, children);
    }

    pub fn append_items(&mut self, items: Vec<TreeItem>)
        ensures
            final(self)@ == (FilteredTreeView {
                tree: clamp_spec(TreeView {
                    items: crate::tree::appended(old(self)@.tree.items, crate::tree::item_views(items@), items@.len() as int),
                    ..old(self)@.tree
                }),
                ..old(self)@
            }),
    {
        self.tree.append_items(items);
    }

    pub fn mark_children_failed(&mut self, parent_id: &str)
        ensures
            final(self)@ == (FilteredTreeView {
                tree: clamp_spec(TreeView {
                    expanded: crate::tree::set_children_spec(old(self)@.tree, parent_id@, crate::tree::Children::NotLoaded).expanded.remove(parent_id@),
                    ..crate::tree::set_children_spec(old(self)@.tree, parent_id@, crate::tree::Children::NotLoaded)
                }),
                ..old(self)@
            }),
    {
        self.tree.mark_children_failed(parent_id);
    }

    pub fn reload_children(&mut self, parent_id: &str) -> (r: bool)
        ensures
            ({
                let (t, ok) = crate::tree::reload_children_spec(old(self)@.tree, parent_id@);
                final(self)@ == (FilteredTreeView { tree: t, ..old(self)@ }) && r == ok
            }),
    {
        self.tree.reload_children(parent_id)
    }

    pub fn merge_root_items(&mut self, incoming: Vec<TreeItem>)
        ensures
            final(self)@ == (FilteredTreeView {
                tree: clamp_spec(TreeView {
                    items: crate::tree::merged(old(self)@.tree.items, crate::tree::item_views(incoming@), incoming@.len() as int),
                    ..old(self)@.tree
                }),
                ..old(self)@
            }),
    {
        self.tree.merge_root_items(incoming);
    }

    pub fn retain_roots(&mut self, keep: &IdSet)
        ensures
            final(self)@ == (FilteredTreeView { tree: crate::tree::retain_roots_spec(old(self)@.tree, keep@), ..old(self)@ }),
    {
        self.tree.retain_roots(keep);
    }

    pub fn begin_soft_reload(&mut self, expanded: &IdSet) -> (r: Vec<String>)
        ensures
            ({
                let (w, fetch) = crate::tree::soft_reload_step(old(self)@.tree, expanded@, old(self)@.tree.items.len() as int);
                &&& crate::tree::string_views(r@) == fetch
                &&& final(self)@ == (FilteredTreeView { tree: w, ..old(self)@ })
            }),
    {
        self.tree.begin_soft_reload(expanded)
    }

    pub fn replace_children(&mut self, parent_id: &str, incoming: Vec<TreeItem>)
        ensures
            final(self)@ == (FilteredTreeView {
                tree: crate::tree::replace_children_spec(old(self)@.tree, parent_id@, crate::tree::item_views(incoming@)),
                ..old(self)@
            }),
    {
        self.tree.replace_children(parent_id, incoming);
    }

    pub fn mark_children_loaded(&mut self, parent_id: &str)
        ensures
            final(self)@ == (FilteredTreeView {
                tree: crate::tree::set_children_spec(old(self)@.tree, parent_id@, crate::tree::Children::Loaded),
                ..old(self)@
            }),
    {
        self.tree.mark_children_loaded(parent_id);
    }

    pub fn expanded_item_ids(&self) -> (r: &IdSet)
        ensures
            r@ == self@.tree.expanded,
    {
        self.tree.expanded_item_ids()
    }

    pub fn expanded_descendant_ids(&self, parent_id: &str) -> (r: IdSet)
        ensures
            r@ == self@.tree.expanded.intersect(crate::tree::descendants(self@.tree.items, parent_id@)),
    {
        self.tree.expanded_descendant_ids(parent_id)
    }

    pub fn contains_item(&self, id: &str) -> (r: bool)
        ensures
            r == crate::tree::has_id(self@.tree.items, id@),
    {
        self.tree.contains_item(id)
    }

    pub fn nodes_needing_child_reload(&mut self, restore: &IdSet) -> (r: Vec<String>)
        ensures
            ({
                let (w, fetch) = crate::tree::restore_step(old(self)@.tree, restore@, old(self)@.tree.items.len() as int);
                &&& crate::tree::string_views(r@) == fetch
                &&& final(self)@ == (FilteredTreeView {
                    tree: if fetch.len() > 0 { clamp_spec(w) } else { w },
                    ..old(self)@
                })
            }),
    {
        self.tree.nodes_needing_child_reload(restore)
    }

    pub fn any_loading(&self) -> (r: bool)
        ensures
            r == exists|i: int|
                0 <= i < self@.tree.items.len() && (#[trigger] self@.tree.items[i]).children
                    == crate::tree::Children::Loading,
    {
        self.tree.any_loading()
    }

    pub fn view_mode(&self) -> (r: FilteredTreeViewMode)
        ensures
            r == self@.view_mode,
    {
        self.view_mode
    }

    pub fn set_view_mode(&mut self, view_mode: FilteredTreeViewMode)
        ensures
            final(self)@ == (FilteredTreeView { view_mode, ..old(self)@ }),
    {
        self.view_mode = view_mode;
    }

    pub fn selected_item_index(&self) -> (r: usize)
        ensures
            r == self@.tree.selected_row,
    {
        self.tree.selected_row()
    }

    pub fn select_item_index(&mut self, index: usize)
        ensures
            final(self)@.filter == old(self)@.filter,
            final(self)@.view_mode == old(self)@.view_mode,
            final(self)@.tree == ({
                let rows = rows_of(old(self)@.tree);
                if rows.len() == 0 {
                    TreeView { selected_row: 0, selected_id: None, ..old(self)@.tree }
                } else {
                    TreeView {
                        manual_scroll: false,
                        ..crate::tree::sync_spec(
                            TreeView {
                                selected_row: crate::tree::min_nat(index as nat, (rows.len() - 1) as nat),
                                ..old(self)@.tree
                            },
                            rows,
                        )
                    }
                }
            }),
    {
        self.tree.select_row(index);
    }

    pub fn selected_item_id(&self) -> (r: Option<&str>)
        ensures
            match r {
                Some(s) => self@.tree.selected_id == Some(s@),
                None => self@.tree.selected_id is None,
            },
    {
        self.tree.selected_item_id()
    }

    pub fn selected_root_ancestor_id(&self) -> (r: Option<String>)
        ensures
            crate::tree::opt_view(r) == match self@.tree.selected_id {
                Some(id) => Some(crate::tree::root_ancestor(self@.tree.items, id, self@.tree.items.len())),
                None => None::<Seq<char>>,
            },
    {
        self.tree.selected_root_ancestor_id()
    }

    pub fn select_item_by_id(&mut self, id: &str)
        ensures
            final(self)@ == (FilteredTreeView {
                tree: if crate::tree::has_id(old(self)@.tree.items, id@) {
                    clamp_spec(TreeView { selected_id: Some(id@), ..old(self)@.tree })
                } else {
                    old(self)@.tree
                },
                ..old(self)@
            }),
    {
        self.tree.select_item_by_id(id);
    }

    pub fn scroll_offset(&self) -> (r: usize)
        ensures
            r == self@.tree.rendered_scroll,
    {
        self.tree.scroll_offset()
    }

    pub fn scroll_viewport(&mut self, delta: isize, height: usize)
        ensures
            final(self)@.filter == old(self)@.filter,
            final(self)@.view_mode == old(self)@.view_mode,
            ({
                let count = rows_of(old(self)@.tree).len();
                if count == 0 || height == 0 {
                    final(self)@.tree == (TreeView {
                        scroll: 0,
                        rendered_scroll: 0,
                        manual_scroll: false,
                        ..old(self)@.tree
                    })
                } else {
                    let viewport = if height < count { height as int } else { count as int };
                    let max_scroll = count - viewport;
                    let base = if old(self)@.tree.rendered_scroll < max_scroll {
                        old(self)@.tree.rendered_scroll as int
                    } else {
                        max_scroll
                    };
                    let moved = crate::tree::sat_add_signed(base, delta as int);
                    let next = if moved < max_scroll { moved } else { max_scroll };
                    final(self)@.tree == (TreeView {
                        scroll: next as nat,
                        rendered_scroll: next as nat,
                        manual_scroll: true,
                        ..old(self)@.tree
                    })
                }
            }),
    {
        self.tree.scroll_viewport(delta, height);
    }

    pub fn filter(&self) -> (r: &str)
        ensures
            r@ == self@.filter.value,
    {
        self.filter.value()
    }

    pub fn filter_cursor(&self) -> (r: usize)
        ensures
            r == self@.filter.cursor,
    {
        self.filter.cursor()
    }

    pub fn filter_state(&self) -> (r: &FilterState)
        ensures
            r@ == self@.filter,
    {
        &self.filter
    }

    pub fn is_filter_focused(&self) -> (r: bool)
        ensures
            r == self@.filter.focused,
    {
        self.filter.is_focused()
    }

    pub fn visible_rows(&self) -> (r: Vec<TreeRow>)
        ensures
            r@ == rows_of(self@.tree),
    {
        self.tree.rows()
    }

    /// The rows to draw in a viewport of `height` rows, starting where the
    /// scroll animation stands (`animated_offset`); the settled offset is
    /// recorded as the scroll offset.
    pub fn visible_range(&mut self, height: usize, animated_offset: usize) -> (r: std::ops::Range<usize>)
        ensures
            final(self)@.filter == old(self)@.filter,
            final(self)@.view_mode == old(self)@.view_mode,
            ({
                let t = old(self)@.tree;
                let count = rows_of(t).len() as int;
                if count == 0 || height == 0 {
                    r.start == 0 && r.end == 0 && final(self)@.tree == t
                } else {
                    let viewport = if height < count { height as int } else { count };
                    let max_scroll = count - viewport;
                    let selected = if t.selected_row < count - 1 { t.selected_row as int } else { count - 1 };
                    let offset = if t.manual_scroll {
                        if t.scroll < max_scroll { t.scroll as int } else { max_scroll }
                    } else {
                        let centred = if selected > viewport / 2 { selected - viewport / 2 } else { 0 };
                        if centred < max_scroll { centred } else { max_scroll }
                    };
                    let start = if animated_offset < max_scroll { animated_offset as int } else { max_scroll };
                    &&& final(self)@.tree == (TreeView { rendered_scroll: offset as nat, ..t })
                    &&& r.start == start
                    &&& r.end == if start + viewport < count { start + viewport } else { count }
                }
            }),
    {
        self.tree.visible_range(height, animated_offset)
    }

    pub fn dispatch(&mut self, action: FilteredTreeAction) -> (r: Option<FilteredTreeEvent>)
        requires
            old(self).wf(),
        ensures
            final(self).wf(),
            final(self)@ == filtered_tree_step(old(self)@, action).0,
            event_view(r) == filtered_tree_step(old(self)@, action).1,
    {
        match action {
            FilteredTreeAction::Tree(a) => {
                let event = self.tree.dispatch(a);
                let r = match event {
                    Some(TreeEvent::LoadChildren(id)) => Some(FilteredTreeEvent::LoadChildren(id)),
                    None => None,
                };
                r
            },
            FilteredTreeAction::FocusFilter => {
                self.filter.focus();
                self.tree.clear_pending_prefix();
                None
            },
            FilteredTreeAction::ClearFilter => {
                let had_filter = !self.filter.value().is_empty();
                self.filter.clear();
                if had_filter {
                    Some(FilteredTreeEvent::FilterCleared)
                } else {
                    None
                }
            },
        }
    }

    /// Applies an edit to the filter line and reports the search it asks for.
    pub fn dispatch_filter(&mut self, action: FilterAction) -> (r: Option<FilteredTreeEvent>)
        requires
            old(self).wf(),
            old(self)@.filter.value.len() < isize::MAX,
        ensures
            final(self).wf(),
            final(self)@ == filter_edit_step(old(self)@, action).0,
            event_view(r) == filter_edit_step(old(self)@, action).1,
    {
        if action == FilterAction::Quit {
            return Some(FilteredTreeEvent::Quit);
        }
        let e = self.filter.dispatch(action);
        match e {
            Some(FilterEvent::Changed) => {
                let value = self.filter.value();
                if value.is_empty() {
                    Some(FilteredTreeEvent::FilterCleared)
                } else {
                    Some(FilteredTreeEvent::FilterChanged(value.to_owned()))
                }
            },
            _ => None,
        }
    }

    /// Drops focus from the filter line and any half-typed key sequence.
    pub fn clear_transient_input(&mut self)
        ensures
            final(self)@ == (FilteredTreeView {
                tree: clamp_spec(TreeView { pending_prefix: false, ..old(self)@.tree }),
                filter: FilterView { focused: false, ..old(self)@.filter },
                ..old(self)@
            }),
    {
        self.filter.clear_focus();
        self.tree.clear_pending_prefix();
        self.tree.clamp_selection();
    }
}

} // verus!
