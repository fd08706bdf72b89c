//! The lazily-loaded, expandable issue tree: items form a forest through
//! their parent ids, rows are the pre-order walk over expanded nodes, and the
//! selection is tracked both by row and by item id.
use vstd::prelude::*;
use crate::collections::{FieldMap, IdSet};
use crate::text::str_eq;

verus! {

/// Rows moved by a half-page jump.
pub const HALF_PAGE_STEP: isize = 10;

#[derive(Debug, Clone, Copy, PartialEq, Eq, Structural)]
pub enum TreeAction {
    MoveUp,
    MoveDown,
    HalfPageUp,
    HalfPageDown,
    Collapse,
    Expand,
    ToggleExpanded,
    CollapseAll,
    ExpandAll,
    GoToStart,
    GoToEnd,
    GotoPrefix,
}

/// Emitted when an interaction needs work the tree cannot do itself.
#[derive(Debug, Clone, PartialEq, Eq)]
pub enum TreeEvent {
    /// The item with this id was expanded but its children are not loaded.
    LoadChildren(String),
}

/// Whether an item's children are known to exist and whether they are loaded.
#[derive(Debug, Clone, Copy, PartialEq, Eq, Structural)]
pub enum Children {
    /// Expandability follows from children present in the item set.
    Unknown,
    /// Known to have children that have not been fetched yet.
    NotLoaded,
    /// A child fetch is in flight.
    Loading,
    /// Children have been fetched into the item set.
    Loaded,
}

impl Default for Children {
    fn default() -> (r: Self)
        ensures
            r == Children::Unknown,
    {
        Children::Unknown
    }
}

#[derive(Debug, Clone, PartialEq, Eq)]
pub struct TreeItem {
    pub id: String,
    pub label: String,
    pub kind: String,
    pub status: String,
    pub parent_id: Option<String>,
    pub root_order: u8,
    pub children: Children,
    pub field_values: FieldMap,
}

/// The mathematical content of a tree item.
#[verifier::ext_equal]
pub struct ItemView {
    pub id: Seq<char>,
    pub label: Seq<char>,
    pub kind: Seq<char>,
    pub status: Seq<char>,
    pub parent: Option<Seq<char>>,
    pub root_order: u8,
    pub children: Children,
    pub fields: Map<Seq<char>, Seq<char>>,
}

pub open spec fn opt_view(o: Option<String>) -> Option<Seq<char>> {
    match o {
        Some(s) => Some(s@),
        None => None,
    }
}

impl View for TreeItem {
    type V = ItemView;

    open spec fn view(&self) -> ItemView {
        ItemView {
            id: self.id@,
            label: self.label@,
            kind: self.kind@,
            status: self.status@,
            parent: opt_view(self.parent_id),
            root_order: self.root_order,
            children: self.children,
            fields: self.field_values@,
        }
    }
}

#[derive(Debug, Clone, Copy, PartialEq, Eq, Structural)]
pub struct TreeRow {
    pub item_index: usize,
    pub depth: usize,
    pub expandable: bool,
    pub expanded: bool,
    pub loading: bool,
    /// The row sits under a node whose children are being refreshed in place.
    pub reloading: bool,
}

pub open spec fn item_views(items: Seq<TreeItem>) -> Seq<ItemView> {
    items.map_values(|i: TreeItem| i@)
}

/// Whether some item carries `id`.
pub open spec fn has_id(items: Seq<ItemView>, id: Seq<char>) -> bool {
    exists|j: int| 0 <= j < items.len() && #[trigger] items[j].id == id
}

/// Items are roots when they have no parent, or their parent is not loaded.
pub open spec fn is_root(items: Seq<ItemView>, i: int) -> bool {
    match items[i].parent {
        None => true,
        Some(p) => !has_id(items, p),
    }
}

/// Indices below `k` of the items whose parent is `id`, in item order.
pub open spec fn child_indices_upto(items: Seq<ItemView>, id: Seq<char>, k: int) -> Seq<usize>
    decreases k,
{
    if k <= 0 {
        Seq::empty()
    } else {
        child_indices_upto(items, id, k - 1) + if items[k - 1].parent == Some(id) {
            seq![(k - 1) as usize]
        } else {
            Seq::empty()
        }
    }
}

/// Indices of the items whose parent is `id`, in item order.
pub open spec fn child_indices(items: Seq<ItemView>, id: Seq<char>) -> Seq<usize> {
    child_indices_upto(items, id, items.len() as int)
}

/// Indices below `k` of the root items, in item order.
pub open spec fn root_indices_upto(items: Seq<ItemView>, k: int) -> Seq<usize>
    decreases k,
{
    if k <= 0 {
        Seq::empty()
    } else {
        root_indices_upto(items, k - 1) + if is_root(items, k - 1) {
            seq![(k - 1) as usize]
        } else {
            Seq::empty()
        }
    }
}

pub open spec fn root_indices(items: Seq<ItemView>) -> Seq<usize> {
    root_indices_upto(items, items.len() as int)
}

/// Whether a node with the given child state and loaded children can expand.
pub open spec fn expandable_spec(c: Children, has_loaded_children: bool) -> bool {
    match c {
        Children::Unknown | Children::Loaded => has_loaded_children,
        Children::NotLoaded | Children::Loading => true,
    }
}

pub open spec fn has_loaded_children(items: Seq<ItemView>, i: int) -> bool {
    child_indices(items, items[i].id).len() > 0
}

/// The row shown for item `i` at `depth`.
pub open spec fn row_of(
    items: Seq<ItemView>,
    expanded: Set<Seq<char>>,
    i: int,
    depth: nat,
    reloading: bool,
) -> TreeRow {
    let has = has_loaded_children(items, i);
    let e = expandable_spec(items[i].children, has);
    TreeRow {
        item_index: i as usize,
        depth: depth as usize,
        expandable: e,
        expanded: e && expanded.contains(items[i].id),
        loading: items[i].children == Children::Loading,
        reloading: reloading || (items[i].children == Children::Loading && has),
    }
}

/// Rows of item `i` and, when it is expanded, of its subtree. `fuel` bounds
/// the depth; it only runs out on parent cycles through repeated ids.
pub open spec fn subtree_rows(
    items: Seq<ItemView>,
    expanded: Set<Seq<char>>,
    i: int,
    depth: nat,
    reloading: bool,
    fuel: nat,
) -> Seq<TreeRow>
    decreases fuel, 0nat, 0nat,
{
    let row = row_of(items, expanded, i, depth, reloading);
    if row.expanded && fuel > 0 {
        seq![row] + kids_rows(
            items,
            expanded,
            child_indices(items, items[i].id),
            depth + 1,
            row.reloading,
            (fuel - 1) as nat,
        )
    } else {
        seq![row]
    }
}

/// Rows of the subtrees of `kids`, one after the other.
pub open spec fn kids_rows(
    items: Seq<ItemView>,
    expanded: Set<Seq<char>>,
    kids: Seq<usize>,
    depth: nat,
    reloading: bool,
    fuel: nat,
) -> Seq<TreeRow>
    decreases fuel, 1nat, kids.len(),
{
    if kids.len() == 0 {
        Seq::empty()
    } else {
        kids_rows(items, expanded, kids.drop_last(), depth, reloading, fuel) + subtree_rows(
            items,
            expanded,
            kids.last() as int,
            depth,
            reloading,
            fuel,
        )
    }
}

/// The visible rows: every item at depth zero in flat mode, otherwise the
/// pre-order walk from the roots through expanded nodes.
pub open spec fn tree_rows(items: Seq<ItemView>, expanded: Set<Seq<char>>, flat: bool) -> Seq<
    TreeRow,
> {
    if flat {
        Seq::new(
            items.len(),
            |i: int|
                TreeRow {
                    item_index: i as usize,
                    depth: 0,
                    expandable: false,
                    expanded: false,
                    loading: false,
                    reloading: false,
                },
        )
    } else {
        kids_rows(items, expanded, root_indices(items), 0, false, items.len())
    }
}


#[derive(Debug, Clone, PartialEq, Eq)]
pub struct TreeState {
    items: Vec<TreeItem>,
    expanded_item_ids: IdSet,
    selected_row: usize,
    selected_item_id: Option<String>,
    scroll: usize,
    /// The offset produced by the most recent `visible_range` call.
    rendered_scroll: usize,
    manual_scroll: bool,
    pending_goto_prefix: bool,
    /// Rows are a flat list with no hierarchy (server-side search results).
    flat: bool,
}

/// The abstract state of a tree.
#[verifier::ext_equal]
pub struct TreeView {
    pub items: Seq<ItemView>,
    pub expanded: Set<Seq<char>>,
    pub selected_row: nat,
    pub selected_id: Option<Seq<char>>,
    pub scroll: nat,
    pub rendered_scroll: nat,
    pub manual_scroll: bool,
    pub pending_prefix: bool,
    pub flat: bool,
}

impl View for TreeState {
    type V = TreeView;

    closed spec fn view(&self) -> TreeView {
        TreeView {
            items: item_views(self.items@),
            expanded: self.expanded_item_ids@,
            selected_row: self.selected_row as nat,
            selected_id: opt_view(self.selected_item_id),
            scroll: self.scroll as nat,
            rendered_scroll: self.rendered_scroll as nat,
            manual_scroll: self.manual_scroll,
            pending_prefix: self.pending_goto_prefix,
            flat: self.flat,
        }
    }
}

/// The visible rows of a tree state.
pub open spec fn rows_of(v: TreeView) -> Seq<TreeRow> {
    tree_rows(v.items, v.expanded, v.flat)
}

/// The item id shown on row `r`.
pub open spec fn row_id(v: TreeView, rows: Seq<TreeRow>, r: int) -> Seq<char> {
    v.items[rows[r].item_index as int].id
}

/// Every row points at an item.
pub open spec fn rows_valid(items: Seq<ItemView>, rows: Seq<TreeRow>) -> bool {
    forall|r: int| 0 <= r < rows.len() ==> (#[trigger] rows[r]).item_index < items.len()
}

impl TreeState {
    /// Whether some item carries `id`.
    pub fn contains_item(&self, id: &str) -> (r: bool)
        ensures
            r == has_id(self@.items, id@),
    {
        let ghost iv = self@.items;
        let mut i: usize = 0;
        while i < self.items.len()
            invariant
                i <= self.items.len(),
                iv == item_views(self.items@),
                forall|j: int| 0 <= j < i ==> iv[j].id != id@,
            decreases self.items.len() - i,
        {
            if str_eq(self.items[i].id.as_str(), id) {
                assert(iv[i as int].id == id@);
                return true;
            }
            i = i + 1;
        }
        false
    }

    /// Indices of the items whose parent is `id`.
    fn child_indices_of(&self, id: &str) -> (r: Vec<usize>)
        ensures
            r@ == child_indices(self@.items, id@),
            forall|k: int| 0 <= k < r@.len() ==> #[trigger] r@[k] < self.items@.len(),
    {
        let ghost iv = self@.items;
        let mut out: Vec<usize> = Vec::new();
        let mut i: usize = 0;
        while i < self.items.len()
            invariant
                i <= self.items.len(),
                iv == item_views(self.items@),
                out@ == child_indices_upto(iv, id@, i as int),
                forall|k: int| 0 <= k < out@.len() ==> #[trigger] out@[k] < i,
            decreases self.items.len() - i,
        {
            let is_child = match &self.items[i].parent_id {
                Some(p) => str_eq(p.as_str(), id),
                None => false,
            };
            assert(is_child == (iv[i as int].parent == Some(id@)));
            if is_child {
                out.push(i);
            }
            i = i + 1;
            assert(out@ =~= child_indices_upto(iv, id@, i as int));
        }
        out
    }

    /// Indices of the root items.
    fn root_indices_of(&self) -> (r: Vec<usize>)
        ensures
            r@ == root_indices(self@.items),
            forall|k: int| 0 <= k < r@.len() ==> #[trigger] r@[k] < self.items@.len(),
    {
        let ghost iv = self@.items;
        let mut out: Vec<usize> = Vec::new();
        let mut i: usize = 0;
        while i < self.items.len()
            invariant
                i <= self.items.len(),
                iv == item_views(self.items@),
                iv == self@.items,
                out@ == root_indices_upto(iv, i as int),
                forall|k: int| 0 <= k < out@.len() ==> #[trigger] out@[k] < i,
            decreases self.items.len() - i,
        {
            let root = match &self.items[i].parent_id {
                Some(p) => !self.contains_item(p.as_str()),
                None => true,
            };
            assert(root == is_root(iv, i as int));
            if root {
                out.push(i);
            }
            i = i + 1;
            assert(out@ =~= root_indices_upto(iv, i as int));
        }
        out
    }

    fn row_for(&self, i: usize, depth: usize, reloading: bool, has: bool) -> (r: TreeRow)
        requires
            i < self.items@.len(),
            has == has_loaded_children(self@.items, i as int),
        ensures
            r == row_of(self@.items, self@.expanded, i as int, depth as nat, reloading),
    {
        let item = &self.items[i];
        let expandable = match item.children {
            Children::Unknown | Children::Loaded => has,
            Children::NotLoaded | Children::Loading => true,
        };
        let expanded = expandable && self.expanded_item_ids.contains(item.id.as_str());
        let loading = item.children == Children::Loading;
        TreeRow {
            item_index: i,
            depth,
            expandable,
            expanded,
            loading,
            reloading: reloading || (loading && has),
        }
    }

    fn push_subtree_rows(
        &self,
        i: usize,
        depth: usize,
        reloading: bool,
        fuel: usize,
        rows: &mut Vec<TreeRow>,
    )
        requires
            i < self.items@.len(),
            depth + fuel <= self.items@.len(),
        ensures
            final(rows)@ == old(rows)@ + subtree_rows(
                self@.items,
                self@.expanded,
                i as int,
                depth as nat,
                reloading,
                fuel as nat,
            ),
        decreases fuel, 0nat, 0nat,
    {
        let kids = self.child_indices_of(self.items[i].id.as_str());
        let _n = self.items.len();
        let row = self.row_for(i, depth, reloading, kids.len() > 0);
        let ghost before = rows@;
        rows.push(row);
        if row.expanded && fuel > 0 {
            self.push_kids_rows(&kids, depth + 1, row.reloading, fuel - 1, rows);
            assert(rows@ =~= before + subtree_rows(
                self@.items,
                self@.expanded,
                i as int,
                depth as nat,
                reloading,
                fuel as nat,
            ));
        } else {
            assert(rows@ =~= before + subtree_rows(
                self@.items,
                self@.expanded,
                i as int,
                depth as nat,
                reloading,
                fuel as nat,
            ));
        }
    }

    fn push_kids_rows(
        &self,
        kids: &Vec<usize>,
        depth: usize,
        reloading: bool,
        fuel: usize,
        rows: &mut Vec<TreeRow>,
    )
        requires
            forall|k: int| 0 <= k < kids@.len() ==> #[trigger] kids@[k] < self.items@.len(),
            depth + fuel <= self.items@.len(),
        ensures
            final(rows)@ == old(rows)@ + kids_rows(
                self@.items,
                self@.expanded,
                kids@,
                depth as nat,
                reloading,
                fuel as nat,
            ),
        decreases fuel, 1nat, kids@.len(),
    {
        let ghost start = rows@;
        let mut k: usize = 0;
        while k < kids.len()
            invariant
                k <= kids.len(),
                forall|j: int| 0 <= j < kids@.len() ==> #[trigger] kids@[j] < self.items@.len(),
                depth + fuel <= self.items@.len(),
                rows@ == start + kids_rows(
                    self@.items,
                    self@.expanded,
                    kids@.take(k as int),
                    depth as nat,
                    reloading,
                    fuel as nat,
                ),
            decreases kids.len() - k,
        {
            assert(kids@.take(k + 1).drop_last() =~= kids@.take(k as int));
            assert(kids@.take(k + 1).last() == kids@[k as int]);
            self.push_subtree_rows(kids[k], depth, reloading, fuel, rows);
            k = k + 1;
            assert(rows@ =~= start + kids_rows(
                self@.items,
                self@.expanded,
                kids@.take(k as int),
                depth as nat,
                reloading,
                fuel as nat,
            ));
        }
        assert(kids@.take(kids.len() as int) =~= kids@);
    }

    /// The visible rows.
    pub fn rows(&self) -> (r: Vec<TreeRow>)
        ensures
            r@ == rows_of(self@),
    {
        let mut rows: Vec<TreeRow> = Vec::new();
        if self.flat {
            let mut i: usize = 0;
            while i < self.items.len()
                invariant
                    i <= self.items.len(),
                    self.flat,
                    rows@ == rows_of(self@).take(i as int),
                decreases self.items.len() - i,
            {
                rows.push(
                    TreeRow {
                        item_index: i,
                        depth: 0,
                        expandable: false,
                        expanded: false,
                        loading: false,
                        reloading: false,
                    },
                );
                i = i + 1;
                assert(rows@ =~= rows_of(self@).take(i as int));
            }
            assert(rows_of(self@).take(self.items.len() as int) =~= rows_of(self@));
            return rows;
        }
        let roots = self.root_indices_of();
        self.push_kids_rows(&roots, 0, false, self.items.len(), &mut rows);
        assert(rows@ =~= rows_of(self@));
        rows
    }
}


/// The first row at or after `r` that shows item id `id`.
pub open spec fn find_row_from(v: TreeView, rows: Seq<TreeRow>, id: Seq<char>, r: int) -> Option<
    nat,
>
    decreases rows.len() - r,
{
    if r < 0 || r >= rows.len() {
        None
    } else if row_id(v, rows, r) == id {
        Some(r as nat)
    } else {
        find_row_from(v, rows, id, r + 1)
    }
}

pub proof fn lemma_find_row_bound(v: TreeView, rows: Seq<TreeRow>, id: Seq<char>, r: int)
    ensures
        find_row_from(v, rows, id, r) matches Some(k) ==> r <= k < rows.len() && row_id(
            v,
            rows,
            k as int,
        ) == id,
    decreases rows.len() - r,
{
    if 0 <= r < rows.len() && row_id(v, rows, r) != id {
        lemma_find_row_bound(v, rows, id, r + 1);
    }
}

/// Re-points the selection id at whatever row `selected_row` shows.
pub open spec fn sync_spec(v: TreeView, rows: Seq<TreeRow>) -> TreeView {
    TreeView {
        selected_id: if v.selected_row < rows.len() {
            Some(row_id(v, rows, v.selected_row as int))
        } else {
            None
        },
        ..v
    }
}

pub open spec fn min_nat(a: nat, b: nat) -> nat {
    if a < b {
        a
    } else {
        b
    }
}

/// Keeps the selection on the selected item when it is still shown,
/// otherwise clamps the row into range and follows it; hands scrolling back
/// to auto-centering.
pub open spec fn clamp_spec(v: TreeView) -> TreeView {
    let rows = rows_of(v);
    if rows.len() == 0 {
        TreeView {
            selected_row: 0,
            selected_id: None,
            scroll: 0,
            manual_scroll: false,
            ..v
        }
    } else {
        let found = match v.selected_id {
            Some(id) => find_row_from(v, rows, id, 0),
            None => None,
        };
        let v1 = match found {
            Some(k) => TreeView { selected_row: k, ..v },
            None => sync_spec(
                TreeView { selected_row: min_nat(v.selected_row, (rows.len() - 1) as nat), ..v },
                rows,
            ),
        };
        TreeView {
            scroll: min_nat(v.rendered_scroll, (rows.len() - 1) as nat),
            manual_scroll: false,
            ..v1
        }
    }
}

/// `a + delta`, saturating at both ends of `usize` (`usize::saturating_add_signed`).
pub open spec fn sat_add_signed(a: int, delta: int) -> int {
    if a + delta < 0 {
        0
    } else if a + delta > usize::MAX {
        usize::MAX as int
    } else {
        a + delta
    }
}

/// `a + delta`, saturating at both ends of `usize`.
pub fn saturating_add_signed(a: usize, delta: isize) -> (r: usize)
    ensures
        r == sat_add_signed(a as int, delta as int),
{
    if delta < 0 {
        let d = (-(delta as i128)) as u128;
        if (a as u128) < d {
            0
        } else {
            ((a as u128) - d) as usize
        }
    } else {
        let d = delta as u128;
        if (a as u128) + d > usize::MAX as u128 {
            usize::MAX
        } else {
            ((a as u128) + d) as usize
        }
    }
}

/// Moves the selection by `delta` rows.
pub open spec fn move_by_spec(v: TreeView, delta: int) -> TreeView {
    let rows = rows_of(v);
    let v0 = TreeView { pending_prefix: false, ..v };
    if rows.len() == 0 {
        TreeView { selected_row: 0, selected_id: None, scroll: 0, ..v0 }
    } else {
        let r = sat_add_signed(v.selected_row as int, delta);
        let r = if r > rows.len() - 1 { rows.len() - 1 } else { r };
        TreeView {
            manual_scroll: false,
            ..sync_spec(TreeView { selected_row: r as nat, ..v0 }, rows)
        }
    }
}

pub open spec fn go_to_start_spec(v: TreeView) -> TreeView {
    let v0 = TreeView {
        pending_prefix: false,
        selected_row: 0,
        scroll: 0,
        manual_scroll: false,
        ..v
    };
    sync_spec(v0, rows_of(v))
}

pub open spec fn go_to_end_spec(v: TreeView) -> TreeView {
    let rows = rows_of(v);
    let v0 = TreeView { pending_prefix: false, manual_scroll: false, ..v };
    if rows.len() == 0 {
        TreeView { selected_row: 0, selected_id: None, scroll: 0, ..v0 }
    } else {
        sync_spec(TreeView { selected_row: (rows.len() - 1) as nat, ..v0 }, rows)
    }
}

pub open spec fn goto_prefix_spec(v: TreeView) -> TreeView {
    if v.pending_prefix {
        go_to_start_spec(v)
    } else {
        TreeView { pending_prefix: true, ..v }
    }
}

/// Whether node `i` is loading fresh children while still holding old ones.
pub open spec fn soft_reloading(items: Seq<ItemView>, i: int) -> bool {
    items[i].children == Children::Loading && exists|j: int|
        0 <= j < items.len() && #[trigger] items[j].parent == Some(items[i].id)
}

/// The last row before `before` whose depth is one less than `depth`.
pub open spec fn parent_row_from(rows: Seq<TreeRow>, depth: nat, before: int) -> Option<nat>
    decreases before,
{
    if before <= 0 || before > rows.len() {
        None
    } else if rows[before - 1].depth + 1 == depth {
        Some((before - 1) as nat)
    } else {
        parent_row_from(rows, depth, before - 1)
    }
}

pub open spec fn collapse_spec(v: TreeView) -> TreeView {
    let rows = rows_of(v);
    let v0 = TreeView { pending_prefix: false, ..v };
    if v.selected_row >= rows.len() {
        v0
    } else {
        let row = rows[v.selected_row as int];
        let id = v.items[row.item_index as int].id;
        if row.expandable && row.expanded {
            if soft_reloading(v.items, row.item_index as int) {
                v0
            } else {
                clamp_spec(TreeView { expanded: v.expanded.remove(id), ..v0 })
            }
        } else {
            let parent = if row.depth == 0 || v.selected_row == 0 {
                None
            } else {
                parent_row_from(rows, row.depth as nat, v.selected_row as int)
            };
            match parent {
                Some(p) => sync_spec(TreeView { selected_row: p, ..v0 }, rows),
                None => go_to_start_spec(v0),
            }
        }
    }
}

/// Marks item `i` loading when its children are known but not fetched, and
/// reports which id needs a fetch.
pub open spec fn begin_load_spec(v: TreeView, i: int) -> (TreeView, Option<Seq<char>>) {
    if v.items[i].children == Children::NotLoaded {
        (
            TreeView {
                items: v.items.update(i, ItemView { children: Children::Loading, ..v.items[i] }),
                ..v
            },
            Some(v.items[i].id),
        )
    } else {
        (v, None)
    }
}

pub open spec fn expand_spec(v: TreeView) -> (TreeView, Option<Seq<char>>) {
    let rows = rows_of(v);
    let v0 = TreeView { pending_prefix: false, ..v };
    if v.selected_row >= rows.len() {
        (v0, None)
    } else {
        let row = rows[v.selected_row as int];
        let i = row.item_index as int;
        let id = v.items[i].id;
        if !row.expandable {
            (v0, None)
        } else if !v.expanded.contains(id) {
            begin_load_spec(TreeView { expanded: v.expanded.insert(id), ..v0 }, i)
        } else if v.selected_row + 1 < rows.len() && rows[v.selected_row + 1int].depth > row.depth {
            (sync_spec(TreeView { selected_row: v.selected_row + 1, ..v0 }, rows), None)
        } else {
            (v0, None)
        }
    }
}

pub open spec fn toggle_spec(v: TreeView) -> (TreeView, Option<Seq<char>>) {
    let rows = rows_of(v);
    let v0 = TreeView { pending_prefix: false, ..v };
    if v.selected_row >= rows.len() {
        (v0, None)
    } else {
        let row = rows[v.selected_row as int];
        let i = row.item_index as int;
        let id = v.items[i].id;
        if !row.expandable || soft_reloading(v.items, i) {
            (v0, None)
        } else if v.expanded.contains(id) {
            (clamp_spec(TreeView { expanded: v.expanded.remove(id), ..v0 }), None)
        } else {
            let (v1, ev) = begin_load_spec(TreeView { expanded: v.expanded.insert(id), ..v0 }, i);
            (clamp_spec(v1), ev)
        }
    }
}

/// Ids of the items that have loaded children.
pub open spec fn ids_with_children(items: Seq<ItemView>) -> Set<Seq<char>> {
    Set::new(
        |x: Seq<char>|
            exists|i: int|
                0 <= i < items.len() && #[trigger] items[i].id == x && has_loaded_children(
                    items,
                    i,
                ),
    )
}

/// What one tree action does, and the id whose children must be fetched.
pub open spec fn tree_step(v: TreeView, action: TreeAction) -> (TreeView, Option<Seq<char>>) {
    match action {
        TreeAction::MoveUp => (move_by_spec(v, -1), None),
        TreeAction::MoveDown => (move_by_spec(v, 1), None),
        TreeAction::HalfPageUp => (move_by_spec(v, -10), None),
        TreeAction::HalfPageDown => (move_by_spec(v, 10), None),
        TreeAction::Collapse => (collapse_spec(v), None),
        TreeAction::Expand => expand_spec(v),
        TreeAction::ToggleExpanded => toggle_spec(v),
        TreeAction::CollapseAll => (
            clamp_spec(TreeView { pending_prefix: false, expanded: Set::empty(), ..v }),
            None,
        ),
        TreeAction::ExpandAll => (
            clamp_spec(
                TreeView {
                    pending_prefix: false,
                    expanded: v.expanded.union(ids_with_children(v.items)),
                    ..v
                },
            ),
            None,
        ),
        TreeAction::GoToStart => (go_to_start_spec(v), None),
        TreeAction::GoToEnd => (go_to_end_spec(v), None),
        TreeAction::GotoPrefix => (goto_prefix_spec(v), None),
    }
}

pub open spec fn event_id(e: Option<TreeEvent>) -> Option<Seq<char>> {
    match e {
        Some(TreeEvent::LoadChildren(id)) => Some(id@),
        None => None,
    }
}


pub proof fn lemma_child_indices_bound(items: Seq<ItemView>, id: Seq<char>, k: int)
    requires
        k <= items.len(),
    ensures
        forall|j: int|
            0 <= j < child_indices_upto(items, id, k).len() ==> (#[trigger] child_indices_upto(
                items,
                id,
                k,
            )[j]) < k,
    decreases k,
{
    if k > 0 {
        lemma_child_indices_bound(items, id, k - 1);
        let a = child_indices_upto(items, id, k - 1);
        let b: Seq<usize> = if items[k - 1].parent == Some(id) {
            seq![(k - 1) as usize]
        } else {
            Seq::empty()
        };
        assert forall|j: int| 0 <= j < (a + b).len() implies (#[trigger] (a + b)[j]) < k by {
            if j < a.len() {
                assert((a + b)[j] == a[j]);
            } else {
                assert((a + b)[j] == b[j - a.len()]);
            }
        }
    }
}

pub proof fn lemma_root_indices_bound(items: Seq<ItemView>, k: int)
    requires
        k <= items.len(),
    ensures
        forall|j: int|
            0 <= j < root_indices_upto(items, k).len() ==> (#[trigger] root_indices_upto(
                items,
                k,
            )[j]) < k,
    decreases k,
{
    if k > 0 {
        lemma_root_indices_bound(items, k - 1);
        let a = root_indices_upto(items, k - 1);
        let b: Seq<usize> = if is_root(items, k - 1) {
            seq![(k - 1) as usize]
        } else {
            Seq::empty()
        };
        assert forall|j: int| 0 <= j < (a + b).len() implies (#[trigger] (a + b)[j]) < k by {
            if j < a.len() {
                assert((a + b)[j] == a[j]);
            } else {
                assert((a + b)[j] == b[j - a.len()]);
            }
        }
    }
}

pub proof fn lemma_subtree_valid(
    items: Seq<ItemView>,
    expanded: Set<Seq<char>>,
    i: int,
    depth: nat,
    reloading: bool,
    fuel: nat,
)
    requires
        0 <= i < items.len(),
        items.len() <= usize::MAX,
    ensures
        rows_valid(items, subtree_rows(items, expanded, i, depth, reloading, fuel)),
    decreases fuel, 0nat, 0nat,
{
    let row = row_of(items, expanded, i, depth, reloading);
    if row.expanded && fuel > 0 {
        lemma_child_indices_bound(items, items[i].id, items.len() as int);
        lemma_kids_valid(
            items,
            expanded,
            child_indices(items, items[i].id),
            depth + 1,
            row.reloading,
            (fuel - 1) as nat,
        );
        let tail = kids_rows(
            items,
            expanded,
            child_indices(items, items[i].id),
            depth + 1,
            row.reloading,
            (fuel - 1) as nat,
        );
        assert forall|r: int| 0 <= r < (seq![row] + tail).len() implies (#[trigger] (seq![row]
            + tail)[r]).item_index < items.len() by {
            if r > 0 {
                assert((seq![row] + tail)[r] == tail[r - 1]);
            }
        }
    }
}

pub proof fn lemma_kids_valid(
    items: Seq<ItemView>,
    expanded: Set<Seq<char>>,
    kids: Seq<usize>,
    depth: nat,
    reloading: bool,
    fuel: nat,
)
    requires
        forall|k: int| 0 <= k < kids.len() ==> #[trigger] kids[k] < items.len(),
        items.len() <= usize::MAX,
    ensures
        rows_valid(items, kids_rows(items, expanded, kids, depth, reloading, fuel)),
    decreases fuel, 1nat, kids.len(),
{
    if kids.len() > 0 {
        lemma_kids_valid(items, expanded, kids.drop_last(), depth, reloading, fuel);
        lemma_subtree_valid(items, expanded, kids.last() as int, depth, reloading, fuel);
        let a = kids_rows(items, expanded, kids.drop_last(), depth, reloading, fuel);
        let b = subtree_rows(items, expanded, kids.last() as int, depth, reloading, fuel);
        assert forall|r: int| 0 <= r < (a + b).len() implies (#[trigger] (a + b)[r]).item_index
            < items.len() by {
            if r < a.len() {
                assert((a + b)[r] == a[r]);
            } else {
                assert((a + b)[r] == b[r - a.len()]);
            }
        }
    }
}

/// Every visible row points at an item.
pub proof fn lemma_rows_valid(v: TreeView)
    requires
        v.items.len() <= usize::MAX,
    ensures
        rows_valid(v.items, rows_of(v)),
{
    if !v.flat {
        lemma_root_indices_bound(v.items, v.items.len() as int);
        lemma_kids_valid(v.items, v.expanded, root_indices(v.items), 0, false, v.items.len());
    }
}

impl TreeState {
    proof fn lemma_valid(&self)
        requires
            self.items@.len() <= usize::MAX,
        ensures
            rows_valid(self@.items, rows_of(self@)),
            self@.items.len() == self.items@.len(),
    {
        lemma_rows_valid(self@);
    }

    fn row_index_for_item_id(&self, rows: &Vec<TreeRow>, id: &str) -> (r: Option<usize>)
        requires
            rows@ == rows_of(self@),
        ensures
            r == match find_row_from(self@, rows@, id@, 0) {
                Some(k) => Some(k as usize),
                None => None::<usize>,
            },
            r matches Some(k) ==> k < rows@.len(),
    {
        let _n = self.items.len();
        proof {
            self.lemma_valid();
        }
        let mut k: usize = 0;
        while k < rows.len()
            invariant
                k <= rows.len(),
                rows@ == rows_of(self@),
                rows_valid(self@.items, rows@),
                self@.items.len() == self.items@.len(),
                find_row_from(self@, rows@, id@, 0) == find_row_from(self@, rows@, id@, k as int),
            decreases rows.len() - k,
        {
            let idx = rows[k].item_index;
            assert(self@.items[idx as int] == self.items@[idx as int]@);
            if str_eq(self.items[idx].id.as_str(), id) {
                return Some(k);
            }
            k = k + 1;
        }
        None
    }

    fn sync_selected_item_id(&mut self, rows: &Vec<TreeRow>)
        requires
            rows@ == rows_of(old(self)@),
        ensures
            final(self)@ == sync_spec(old(self)@, rows@),
    {
        let _n = self.items.len();
        proof {
            self.lemma_valid();
        }
        if self.selected_row < rows.len() {
            let idx = rows[self.selected_row].item_index;
            assert(self@.items[idx as int] == self.items@[idx as int]@);
            self.selected_item_id = Some(self.items[idx].id.clone());
        } else {
            self.selected_item_id = None;
        }
        assert(final(self)@ =~= sync_spec(old(self)@, rows@));
    }

    /// Keeps the selection on the selected item when it is still shown,
    /// otherwise clamps it into range, and re-enables auto-centering.
    pub fn clamp_selection(&mut self)
        ensures
            final(self)@ == clamp_spec(old(self)@),
    {
        let ghost v = self@;
        let rows = self.rows();
        if rows.len() == 0 {
            self.selected_row = 0;
            self.selected_item_id = None;
            self.scroll = 0;
            self.manual_scroll = false;
            return;
        }
        let found = match &self.selected_item_id {
            Some(id) => self.row_index_for_item_id(&rows, id.as_str()),
            None => None,
        };
        let ghost f = match v.selected_id {
            Some(id) => find_row_from(v, rows@, id, 0),
            None => None,
        };
        assert(rows@ == rows_of(v));
        proof {
            match v.selected_id {
                Some(id) => lemma_find_row_bound(v, rows@, id, 0),
                None => {},
            }
        }
        assert(found == match f { Some(k) => Some(k as usize), None => None::<usize> });
        match found {
            Some(k) => {
                self.selected_row = k;
                assert(self@ =~= TreeView { selected_row: k as nat, ..v });
            },
            None => {
                self.selected_row = if self.selected_row < rows.len() - 1 {
                    self.selected_row
                } else {
                    rows.len() - 1
                };
                self.sync_selected_item_id(&rows);
                assert(self@ =~= sync_spec(
                    TreeView { selected_row: min_nat(v.selected_row, (rows@.len() - 1) as nat), ..v },
                    rows@,
                ));
            },
        }
        let ghost v1 = match f {
            Some(k) => TreeView { selected_row: k, ..v },
            None => sync_spec(
                TreeView { selected_row: min_nat(v.selected_row, (rows@.len() - 1) as nat), ..v },
                rows@,
            ),
        };
        assert(self@ =~= v1);
        self.scroll = if self.rendered_scroll < rows.len() - 1 {
            self.rendered_scroll
        } else {
            rows.len() - 1
        };
        self.manual_scroll = false;
        assert(self@ =~= clamp_spec(v));
    }
}


impl TreeState {
    /// A tree over `items` with nothing expanded and the first item selected.
    pub fn new(items: Vec<TreeItem>) -> (r: Self)
        ensures
            r@.items == item_views(items@),
            r@.expanded == Set::<Seq<char>>::empty(),
            r@.selected_row == 0,
            r@.selected_id == if items@.len() > 0 {
                Some(items@[0].id@)
            } else {
                None::<Seq<char>>
            },
            r@.scroll == 0,
            r@.rendered_scroll == 0,
            !r@.manual_scroll,
            !r@.pending_prefix,
            !r@.flat,
    {
        let selected_item_id = if items.len() > 0 {
            Some(items[0].id.clone())
        } else {
            None
        };
        TreeState {
            items,
            expanded_item_ids: IdSet::new(),
            selected_row: 0,
            selected_item_id,
            scroll: 0,
            rendered_scroll: 0,
            manual_scroll: false,
            pending_goto_prefix: false,
            flat: false,
        }
    }

    pub fn items(&self) -> (r: &[TreeItem])
        ensures
            item_views(r@) == self@.items,
    {
        self.items.as_slice()
    }

    pub fn set_flat(&mut self, flat: bool)
        ensures
            final(self)@ == (TreeView { flat, ..old(self)@ }),
    {
        self.flat = flat;
        assert(self@ =~= TreeView { flat, ..old(self)@ });
    }

    pub fn selected_item_id(&self) -> (r: Option<&str>)
        ensures
            match r {
                Some(s) => self@.selected_id == Some(s@),
                None => self@.selected_id is None,
            },
    {
        match &self.selected_item_id {
            Some(id) => Some(id.as_str()),
            None => None,
        }
    }

    pub fn selected_row(&self) -> (r: usize)
        ensures
            r == self@.selected_row,
    {
        self.selected_row
    }

    /// The viewport offset used by the most recent render.
    pub fn scroll_offset(&self) -> (r: usize)
        ensures
            r == self@.rendered_scroll,
    {
        self.rendered_scroll
    }

    pub fn clear_pending_prefix(&mut self)
        ensures
            final(self)@ == (TreeView { pending_prefix: false, ..old(self)@ }),
    {
        self.pending_goto_prefix = false;
        assert(self@ =~= TreeView { pending_prefix: false, ..old(self)@ });
    }

    /// Whether any node has a child fetch in flight.
    pub fn any_loading(&self) -> (r: bool)
        ensures
            r == exists|i: int|
                0 <= i < self@.items.len() && (#[trigger] self@.items[i]).children
                    == Children::Loading,
    {
        let mut i: usize = 0;
        while i < self.items.len()
            invariant
                i <= self.items.len(),
                self@.items == item_views(self.items@),
                forall|j: int| 0 <= j < i ==> (#[trigger] self@.items[j]).children != Children::Loading,
            decreases self.items.len() - i,
        {
            assert(self@.items[i as int] == self.items@[i as int]@);
            if self.items[i].children == Children::Loading {
                return true;
            }
            i = i + 1;
        }
        false
    }

    /// Selects row `row` (clamped into range) and re-enables auto-centering.
    pub fn select_row(&mut self, row: usize)
        ensures
            final(self)@ == ({
                let rows = rows_of(old(self)@);
                if rows.len() == 0 {
                    TreeView { selected_row: 0, selected_id: None, ..old(self)@ }
                } else {
                    TreeView {
                        manual_scroll: false,
                        ..sync_spec(
                            TreeView {
                                selected_row: min_nat(row as nat, (rows.len() - 1) as nat),
                                ..old(self)@
                            },
                            rows,
                        )
                    }
                }
            }),
    {
        let ghost v = self@;
        let rows = self.rows();
        if rows.len() == 0 {
            self.selected_row = 0;
            self.selected_item_id = None;
            assert(self@ =~= TreeView { selected_row: 0, selected_id: None, ..v });
            return;
        }
        self.selected_row = if row < rows.len() - 1 { row } else { rows.len() - 1 };
        self.sync_selected_item_id(&rows);
        self.manual_scroll = false;
        assert(self@ =~= TreeView {
            manual_scroll: false,
            ..sync_spec(
                TreeView { selected_row: min_nat(row as nat, (rows@.len() - 1) as nat), ..v },
                rows@,
            )
        });
    }

    fn move_by(&mut self, delta: isize)
        ensures
            final(self)@ == move_by_spec(old(self)@, delta as int),
    {
        let ghost v = self@;
        self.pending_goto_prefix = false;
        let rows = self.rows();
        if rows.len() == 0 {
            self.selected_row = 0;
            self.selected_item_id = None;
            self.scroll = 0;
            assert(self@ =~= move_by_spec(v, delta as int));
            return;
        }
        let max_index = rows.len() - 1;
        let moved = saturating_add_signed(self.selected_row, delta);
        assert(moved == sat_add_signed(v.selected_row as int, delta as int));
        self.selected_row = if moved < max_index { moved } else { max_index };
        self.sync_selected_item_id(&rows);
        self.manual_scroll = false;
        assert(self@ =~= move_by_spec(v, delta as int));
    }

    fn go_to_start(&mut self)
        ensures
            final(self)@ == go_to_start_spec(old(self)@),
    {
        let ghost v = self@;
        self.pending_goto_prefix = false;
        self.selected_row = 0;
        self.scroll = 0;
        self.manual_scroll = false;
        let rows = self.rows();
        self.sync_selected_item_id(&rows);
        assert(self@ =~= go_to_start_spec(v));
    }

    fn go_to_end(&mut self)
        ensures
            final(self)@ == go_to_end_spec(old(self)@),
    {
        let ghost v = self@;
        self.pending_goto_prefix = false;
        let rows = self.rows();
        if rows.len() == 0 {
            self.selected_row = 0;
            self.selected_item_id = None;
            self.scroll = 0;
        } else {
            self.selected_row = rows.len() - 1;
            self.sync_selected_item_id(&rows);
        }
        self.manual_scroll = false;
        assert(self@ =~= go_to_end_spec(v));
    }

    fn handle_goto_prefix(&mut self)
        ensures
            final(self)@ == goto_prefix_spec(old(self)@),
    {
        if self.pending_goto_prefix {
            self.go_to_start();
        } else {
            self.pending_goto_prefix = true;
            assert(self@ =~= goto_prefix_spec(old(self)@));
        }
    }

    fn is_soft_reloading(&self, item_index: usize) -> (r: bool)
        requires
            item_index < self@.items.len(),
        ensures
            r == soft_reloading(self@.items, item_index as int),
    {
        assert(self@.items[item_index as int] == self.items@[item_index as int]@);
        if self.items[item_index].children != Children::Loading {
            return false;
        }
        let kids = self.child_indices_of(self.items[item_index].id.as_str());
        proof {
            let iv = self@.items;
            let id = iv[item_index as int].id;
            lemma_child_indices_exist(iv, id, iv.len() as int);
        }
        kids.len() > 0
    }

    fn parent_row_index(&self, rows: &Vec<TreeRow>, selected_depth: usize) -> (r: Option<usize>)
        ensures
            r == (if selected_depth == 0 || self@.selected_row == 0 {
                None::<usize>
            } else {
                match parent_row_from(rows@, selected_depth as nat, self@.selected_row as int) {
                    Some(p) => Some(p as usize),
                    None => None::<usize>,
                }
            }),
    {
        if selected_depth == 0 || self.selected_row == 0 {
            return None;
        }
        let mut before = if self.selected_row <= rows.len() {
            self.selected_row
        } else {
            return None;
        };
        while before > 0
            invariant
                before <= self.selected_row,
                self.selected_row <= rows@.len(),
                before <= rows@.len(),
                parent_row_from(rows@, selected_depth as nat, self.selected_row as int)
                    == parent_row_from(rows@, selected_depth as nat, before as int),
            decreases before,
        {
            if rows[before - 1].depth as u128 + 1 == selected_depth as u128 {
                return Some(before - 1);
            }
            before = before - 1;
        }
        None
    }
}

pub proof fn lemma_parent_row_bound(rows: Seq<TreeRow>, depth: nat, before: int)
    ensures
        parent_row_from(rows, depth, before) matches Some(p) ==> p < before && p < rows.len(),
    decreases before,
{
    if 0 < before <= rows.len() && rows[before - 1].depth + 1 != depth {
        lemma_parent_row_bound(rows, depth, before - 1);
    }
}

/// A node holding loaded children has a child among the items.
pub proof fn lemma_child_indices_exist(items: Seq<ItemView>, id: Seq<char>, k: int)
    requires
        0 <= k <= items.len(),
    ensures
        child_indices_upto(items, id, k).len() > 0 <==> exists|j: int|
            0 <= j < k && #[trigger] items[j].parent == Some(id),
    decreases k,
{
    if k > 0 {
        lemma_child_indices_exist(items, id, k - 1);
        if items[k - 1].parent == Some(id) {
            assert(items[k - 1].parent == Some(id));
        }
        if exists|j: int| 0 <= j < k && #[trigger] items[j].parent == Some(id) {
            let j = choose|j: int| 0 <= j < k && #[trigger] items[j].parent == Some(id);
            if j < k - 1 {
                assert(child_indices_upto(items, id, k - 1).len() > 0);
            }
        }
    }
}


impl TreeState {
    /// Sets the child state of item `i`.
    fn set_item_children(&mut self, i: usize, c: Children)
        requires
            i < old(self)@.items.len(),
        ensures
            final(self)@ == (TreeView {
                items: old(self)@.items.update(
                    i as int,
                    ItemView { children: c, ..old(self)@.items[i as int] },
                ),
                ..old(self)@
            }),
            final(self).items@[i as int].id == old(self).items@[i as int].id,
            final(self).items@.len() == old(self).items@.len(),
    {
        let ghost v = self@;
        let mut item = self.items.remove(i);
        item.children = c;
        self.items.insert(i, item);
        assert(item_views(self.items@) =~= v.items.update(
            i as int,
            ItemView { children: c, ..v.items[i as int] },
        ));
        assert(self@ =~= TreeView {
            items: v.items.update(i as int, ItemView { children: c, ..v.items[i as int] }),
            ..v
        });
    }

    fn collapse_or_go_to_parent(&mut self)
        ensures
            final(self)@ == collapse_spec(old(self)@),
    {
        let ghost v = self@;
        self.pending_goto_prefix = false;
        let rows = self.rows();
        let _n = self.items.len();
        proof {
            lemma_rows_valid(v);
        }
        if self.selected_row >= rows.len() {
            assert(self@ =~= collapse_spec(v));
            return;
        }
        let row = rows[self.selected_row];
        if row.expandable && row.expanded {
            if self.is_soft_reloading(row.item_index) {
                assert(self@ =~= collapse_spec(v));
                return;
            }
            assert(self@.items[row.item_index as int] == self.items@[row.item_index as int]@);
            let id = self.items[row.item_index].id.clone();
            self.expanded_item_ids.remove(id.as_str());
            self.clamp_selection();
            return;
        }
        let parent = self.parent_row_index(&rows, row.depth);
        proof {
            lemma_parent_row_bound(rows@, row.depth as nat, v.selected_row as int);
        }
        match parent {
            Some(p) => {
                self.selected_row = p;
                self.sync_selected_item_id(&rows);
            },
            None => {
                self.go_to_start();
            },
        }
    }

    /// Marks item `i` loading when its children are known but not fetched.
    fn begin_child_load(&mut self, item_index: usize) -> (r: Option<TreeEvent>)
        requires
            item_index < old(self)@.items.len(),
        ensures
            (final(self)@, event_id(r)) == begin_load_spec(old(self)@, item_index as int),
    {
        let ghost v = self@;
        assert(self@.items[item_index as int] == self.items@[item_index as int]@);
        if self.items[item_index].children == Children::NotLoaded {
            self.set_item_children(item_index, Children::Loading);
            assert(self@ =~= begin_load_spec(v, item_index as int).0);
            return Some(TreeEvent::LoadChildren(self.items[item_index].id.clone()));
        }
        None
    }

    fn expand_or_go_to_first_child(&mut self) -> (r: Option<TreeEvent>)
        ensures
            (final(self)@, event_id(r)) == expand_spec(old(self)@),
    {
        let ghost v = self@;
        self.pending_goto_prefix = false;
        let rows = self.rows();
        let _n = self.items.len();
        proof {
            lemma_rows_valid(v);
        }
        if self.selected_row >= rows.len() {
            assert(self@ =~= expand_spec(v).0);
            return None;
        }
        let row = rows[self.selected_row];
        if !row.expandable {
            assert(self@ =~= expand_spec(v).0);
            return None;
        }
        let item_index = row.item_index;
        let depth = row.depth;
        assert(self@.items[item_index as int] == self.items@[item_index as int]@);
        let selected_id = self.items[item_index].id.clone();
        if !self.expanded_item_ids.contains(selected_id.as_str()) {
            self.expanded_item_ids.insert(selected_id);
            return self.begin_child_load(item_index);
        }
        if self.selected_row + 1 < rows.len() && rows[self.selected_row + 1].depth > depth {
            self.selected_row = self.selected_row + 1;
            self.sync_selected_item_id(&rows);
        } else {
            assert(self@ =~= expand_spec(v).0);
        }
        None
    }

    fn toggle_selected_expansion(&mut self) -> (r: Option<TreeEvent>)
        ensures
            (final(self)@, event_id(r)) == toggle_spec(old(self)@),
    {
        let ghost v = self@;
        self.pending_goto_prefix = false;
        let rows = self.rows();
        let _n = self.items.len();
        proof {
            lemma_rows_valid(v);
        }
        if self.selected_row >= rows.len() {
            assert(self@ =~= toggle_spec(v).0);
            return None;
        }
        let row = rows[self.selected_row];
        if !row.expandable {
            assert(self@ =~= toggle_spec(v).0);
            return None;
        }
        let item_index = row.item_index;
        assert(self@.items[item_index as int] == self.items@[item_index as int]@);
        let id = self.items[item_index].id.clone();
        if self.is_soft_reloading(item_index) {
            assert(self@ =~= toggle_spec(v).0);
            return None;
        }
        if self.expanded_item_ids.remove(id.as_str()) {
            self.clamp_selection();
            return None;
        }
        let ghost idv = id@;
        self.expanded_item_ids.insert(id);
        assert(self@.expanded =~= v.expanded.insert(idv));
        assert(self@ =~= TreeView {
            expanded: v.expanded.insert(idv),
            ..TreeView { pending_prefix: false, ..v }
        });
        let event = self.begin_child_load(item_index);
        self.clamp_selection();
        event
    }

    fn collapse_all_expansion(&mut self)
        ensures
            final(self)@ == clamp_spec(
                TreeView { pending_prefix: false, expanded: Set::empty(), ..old(self)@ },
            ),
    {
        let ghost v = self@;
        self.pending_goto_prefix = false;
        self.expanded_item_ids.clear();
        assert(self@ =~= TreeView { pending_prefix: false, expanded: Set::empty(), ..v });
        self.clamp_selection();
    }

    fn expand_all_loaded_expansion(&mut self)
        ensures
            final(self)@ == clamp_spec(
                TreeView {
                    pending_prefix: false,
                    expanded: old(self)@.expanded.union(ids_with_children(old(self)@.items)),
                    ..old(self)@
                },
            ),
    {
        let ghost v = self@;
        self.pending_goto_prefix = false;
        let mut i: usize = 0;
        while i < self.items.len()
            invariant
                i <= self.items.len(),
                self@.items == v.items,
                self@.items == item_views(self.items@),
                self@.flat == v.flat,
                self@.selected_row == v.selected_row,
                self@.selected_id == v.selected_id,
                self@.scroll == v.scroll,
                self@.rendered_scroll == v.rendered_scroll,
                self@.manual_scroll == v.manual_scroll,
                !self@.pending_prefix,
                forall|x: Seq<char>|
                    #[trigger] self@.expanded.contains(x) <==> (v.expanded.contains(x) || exists|
                        j: int,
                    |
                        0 <= j < i && #[trigger] v.items[j].id == x && has_loaded_children(
                            v.items,
                            j,
                        )),
            decreases self.items.len() - i,
        {
            let kids = self.child_indices_of(self.items[i].id.as_str());
            assert(self@.items[i as int] == self.items@[i as int]@);
            let ghost before = self@.expanded;
            let ghost idv = v.items[i as int].id;
            let ghost has = has_loaded_children(v.items, i as int);
            assert(has == (kids.len() > 0));
            if kids.len() > 0 {
                let id = self.items[i].id.clone();
                self.expanded_item_ids.insert(id);
            }
            assert forall|x: Seq<char>|
                #[trigger] self@.expanded.contains(x) <==> (v.expanded.contains(x) || exists|
                    j: int,
                |
                    0 <= j < i + 1 && #[trigger] v.items[j].id == x && has_loaded_children(
                        v.items,
                        j,
                    )) by {
                if exists|j: int|
                    0 <= j < i + 1 && #[trigger] v.items[j].id == x && has_loaded_children(
                        v.items,
                        j,
                    ) {
                    let j = choose|j: int|
                        0 <= j < i + 1 && #[trigger] v.items[j].id == x && has_loaded_children(
                            v.items,
                            j,
                        );
                    if j < i {
                        assert(before.contains(x));
                    }
                }
                if before.contains(x) && !v.expanded.contains(x) {
                    let j = choose|j: int|
                        0 <= j < i && #[trigger] v.items[j].id == x && has_loaded_children(
                            v.items,
                            j,
                        );
                    assert(0 <= j < i + 1);
                }
            }
            i = i + 1;
        }
        assert(self@ =~= TreeView {
            pending_prefix: false,
            expanded: v.expanded.union(ids_with_children(v.items)),
            ..v
        });
        self.clamp_selection();
    }

    /// Applies one navigation or expansion action; reports a needed child load.
    pub fn dispatch(&mut self, action: TreeAction) -> (r: Option<TreeEvent>)
        ensures
            (final(self)@, event_id(r)) == tree_step(old(self)@, action),
    {
        match action {
            TreeAction::MoveUp => self.move_by(-1),
            TreeAction::MoveDown => self.move_by(1),
            TreeAction::HalfPageUp => self.move_by(-HALF_PAGE_STEP),
            TreeAction::HalfPageDown => self.move_by(HALF_PAGE_STEP),
            TreeAction::Collapse => self.collapse_or_go_to_parent(),
            TreeAction::Expand => {
                return self.expand_or_go_to_first_child();
            },
            TreeAction::ToggleExpanded => {
                return self.toggle_selected_expansion();
            },
            TreeAction::CollapseAll => self.collapse_all_expansion(),
            TreeAction::ExpandAll => self.expand_all_loaded_expansion(),
            TreeAction::GoToStart => self.go_to_start(),
            TreeAction::GoToEnd => self.go_to_end(),
            TreeAction::GotoPrefix => self.handle_goto_prefix(),
        }
        None
    }
}


/// The first item index at or after `k` whose id is `id`.
pub open spec fn first_index_from(items: Seq<ItemView>, id: Seq<char>, k: int) -> Option<nat>
    decreases items.len() - k,
{
    if k < 0 || k >= items.len() {
        None
    } else if items[k].id == id {
        Some(k as nat)
    } else {
        first_index_from(items, id, k + 1)
    }
}

pub open spec fn first_index(items: Seq<ItemView>, id: Seq<char>) -> Option<nat> {
    first_index_from(items, id, 0)
}

pub proof fn lemma_first_index(items: Seq<ItemView>, id: Seq<char>, k: int)
    requires
        0 <= k,
    ensures
        first_index_from(items, id, k) matches Some(j) ==> k <= j < items.len() && items[j as int].id == id
            && forall|m: int| k <= m < j ==> items[m].id != id,
        first_index_from(items, id, k) is None ==> forall|m: int|
            k <= m < items.len() ==> items[m].id != id,
    decreases items.len() - k,
{
    if k < items.len() && items[k].id != id {
        lemma_first_index(items, id, k + 1);
    }
}

/// Item `j` with its child state replaced.
pub open spec fn with_children(items: Seq<ItemView>, j: int, c: Children) -> Seq<ItemView> {
    items.update(j, ItemView { children: c, ..items[j] })
}

/// Sets (or, for `None`, clears) field `field` of the first item with `id`.
pub open spec fn update_field_spec(
    v: TreeView,
    id: Seq<char>,
    field: Seq<char>,
    value: Option<Seq<char>>,
) -> TreeView {
    match first_index(v.items, id) {
        None => v,
        Some(j) => {
            let it = v.items[j as int];
            let fields = match value {
                Some(x) => it.fields.insert(field, x),
                None => it.fields.remove(field),
            };
            TreeView { items: v.items.update(j as int, ItemView { fields, ..it }), ..v }
        },
    }
}

/// Sets the status (and status id field) of the first item with `id`.
pub open spec fn update_status_spec(
    v: TreeView,
    id: Seq<char>,
    status: Seq<char>,
    status_id: Option<Seq<char>>,
) -> TreeView {
    match first_index(v.items, id) {
        None => v,
        Some(j) => {
            let it = v.items[j as int];
            let fields = match status_id {
                Some(x) => it.fields.insert("status_id"@, x),
                None => it.fields.remove("status_id"@),
            };
            TreeView { items: v.items.update(j as int, ItemView { status, fields, ..it }), ..v }
        },
    }
}

/// Sets the child state of the first item with `id`, if any.
pub open spec fn set_children_spec(v: TreeView, id: Seq<char>, c: Children) -> TreeView {
    match first_index(v.items, id) {
        None => v,
        Some(j) => TreeView { items: with_children(v.items, j as int, c), ..v },
    }
}

/// The items of `incoming` whose ids are not already among `items`.
pub open spec fn new_items(items: Seq<ItemView>, incoming: Seq<ItemView>) -> Seq<ItemView> {
    incoming.filter(|c: ItemView| !has_id(items, c.id))
}

pub open spec fn add_children_spec(v: TreeView, parent: Seq<char>, kids: Seq<ItemView>) -> TreeView {
    match first_index(v.items, parent) {
        None => v,
        Some(j) => clamp_spec(
            TreeView {
                items: with_children(v.items + new_items(v.items, kids), j as int, Children::Loaded),
                ..v
            },
        ),
    }
}

/// `items` extended by the first `k` incoming items, skipping any whose id is
/// already present (including ids added earlier in the same batch).
pub open spec fn appended(items: Seq<ItemView>, incoming: Seq<ItemView>, k: int) -> Seq<ItemView>
    decreases k,
{
    if k <= 0 {
        items
    } else {
        let a = appended(items, incoming, k - 1);
        if has_id(a, incoming[k - 1].id) {
            a
        } else {
            a.push(incoming[k - 1])
        }
    }
}

pub open spec fn set_items_spec(v: TreeView, items: Seq<ItemView>, preserve: Set<Seq<char>>) -> TreeView {
    let preserved = match v.selected_id {
        Some(id) => has_id(items, id),
        None => false,
    };
    clamp_spec(
        TreeView {
            items,
            expanded: v.expanded.filter(|x: Seq<char>| preserve.contains(x) && has_id(items, x)),
            selected_id: if preserved {
                v.selected_id
            } else if items.len() > 0 {
                Some(items[0].id)
            } else {
                None
            },
            selected_row: 0,
            pending_prefix: false,
            scroll: if preserved { v.scroll } else { 0 },
            ..v
        },
    )
}

impl TreeState {
    /// Replaces item `i`.
    fn replace_item(&mut self, i: usize, item: TreeItem)
        requires
            i < old(self)@.items.len(),
        ensures
            final(self)@ == (TreeView { items: old(self)@.items.update(i as int, item@), ..old(self)@ }),
            final(self).items@.len() == old(self).items@.len(),
    {
        let ghost v = self@;
        let ghost iv = item@;
        self.items.remove(i);
        self.items.insert(i, item);
        assert(item_views(self.items@) =~= v.items.update(i as int, iv));
        assert(self@ =~= TreeView { items: v.items.update(i as int, iv), ..v });
    }

    /// Takes item `i` out, leaving a copy with empty text in its place.
    fn first_index_of(&self, id: &str) -> (r: Option<usize>)
        ensures
            r == match first_index(self@.items, id@) {
                Some(j) => Some(j as usize),
                None => None::<usize>,
            },
            r matches Some(j) ==> j < self.items@.len() && first_index(self@.items, id@) == Some(
                j as nat,
            ),
            r is None ==> first_index(self@.items, id@) is None,
    {
        proof {
            lemma_first_index(self@.items, id@, 0);
        }
        let mut k: usize = 0;
        while k < self.items.len()
            invariant
                k <= self.items.len(),
                self@.items == item_views(self.items@),
                first_index(self@.items, id@) == first_index_from(self@.items, id@, k as int),
            decreases self.items.len() - k,
        {
            assert(self@.items[k as int] == self.items@[k as int]@);
            if str_eq(self.items[k].id.as_str(), id) {
                return Some(k);
            }
            k = k + 1;
        }
        None
    }

    /// Takes item `j` out of the list, leaving an empty placeholder behind.
    fn take_item(&mut self, j: usize) -> (r: TreeItem)
        requires
            j < old(self).items@.len(),
        ensures
            r@ == old(self)@.items[j as int],
            final(self).items@.len() == old(self).items@.len(),
            final(self)@ == (TreeView { items: final(self)@.items, ..old(self)@ }),
            final(self)@.items == old(self)@.items.update(j as int, final(self)@.items[j as int]),
    {
        let ghost v = self@;
        assert(self@.items[j as int] == self.items@[j as int]@);
        let item = self.items.remove(j);
        self.items.insert(j, TreeItem {
            id: String::new(),
            label: String::new(),
            kind: String::new(),
            status: String::new(),
            parent_id: None,
            root_order: 0,
            children: Children::Unknown,
            field_values: FieldMap::new(),
        });
        assert(self@.items =~= v.items.update(j as int, self@.items[j as int]));
        item
    }

    /// Sets (or clears) field `field_id` of the item `item_id`.
    pub fn update_item_field(&mut self, item_id: &str, field_id: &str, value: Option<String>)
        ensures
            final(self)@ == update_field_spec(old(self)@, item_id@, field_id@, opt_view(value)),
    {
        let ghost v = self@;
        let j = match self.first_index_of(item_id) {
            Some(j) => j,
            None => {
                return;
            },
        };
        let ghost vo = opt_view(value);
        let mut item = self.take_item(j);
        match value {
            Some(x) => item.field_values.insert(field_id.to_owned(), x),
            None => item.field_values.remove(field_id),
        }
        let ghost it = v.items[j as int];
        assert(item@ =~= ItemView {
            fields: match vo {
                Some(x) => it.fields.insert(field_id@, x),
                None => it.fields.remove(field_id@),
            },
            ..it
        });
        self.replace_item(j, item);
        assert(self@ =~= update_field_spec(v, item_id@, field_id@, vo));
    }

    /// Sets the status of `item_id`, and its `status_id` field.
    pub fn update_item_status(&mut self, item_id: &str, status: String, status_id: Option<String>)
        ensures
            final(self)@ == update_status_spec(old(self)@, item_id@, status@, opt_view(status_id)),
    {
        let ghost v = self@;
        let j = match self.first_index_of(item_id) {
            Some(j) => j,
            None => {
                return;
            },
        };
        let ghost so = opt_view(status_id);
        let ghost sv = status@;
        let mut item = self.take_item(j);
        item.status = status;
        let key = "status_id".to_owned();
        match status_id {
            Some(x) => item.field_values.insert(key, x),
            None => item.field_values.remove("status_id"),
        }
        let ghost it = v.items[j as int];
        assert(item@ =~= ItemView {
            status: sv,
            fields: match so {
                Some(x) => it.fields.insert("status_id"@, x),
                None => it.fields.remove("status_id"@),
            },
            ..it
        });
        self.replace_item(j, item);
        assert(self@ =~= update_status_spec(v, item_id@, sv, so));
    }

    fn set_children_of(&mut self, id: &str, c: Children)
        ensures
            final(self)@ == set_children_spec(old(self)@, id@, c),
    {
        let ghost v = self@;
        match self.first_index_of(id) {
            Some(j) => {
                self.set_item_children(j, c);
            },
            None => {},
        }
    }

    /// Marks a requested child load as failed so it can be retried.
    pub fn mark_children_failed(&mut self, parent_id: &str)
        ensures
            final(self)@ == clamp_spec(
                TreeView {
                    expanded: set_children_spec(old(self)@, parent_id@, Children::NotLoaded).expanded.remove(
                        parent_id@,
                    ),
                    ..set_children_spec(old(self)@, parent_id@, Children::NotLoaded)
                },
            ),
    {
        self.set_children_of(parent_id, Children::NotLoaded);
        let ghost v1 = self@;
        self.expanded_item_ids.remove(parent_id);
        assert(self@ =~= TreeView { expanded: v1.expanded.remove(parent_id@), ..v1 });
        self.clamp_selection();
    }

    /// Reverts a soft-reloading node to loaded, keeping its stale subtree.
    pub fn mark_children_loaded(&mut self, parent_id: &str)
        ensures
            final(self)@ == set_children_spec(old(self)@, parent_id@, Children::Loaded),
    {
        self.set_children_of(parent_id, Children::Loaded);
    }

    /// The ids currently marked expanded.
    pub fn expanded_item_ids(&self) -> (r: &IdSet)
        ensures
            r@ == self@.expanded,
    {
        &self.expanded_item_ids
    }

    /// Selects the item `id` if present.
    pub fn select_item_by_id(&mut self, id: &str)
        ensures
            final(self)@ == if has_id(old(self)@.items, id@) {
                clamp_spec(TreeView { selected_id: Some(id@), ..old(self)@ })
            } else {
                old(self)@
            },
    {
        let ghost v = self@;
        if self.contains_item(id) {
            self.selected_item_id = Some(id.to_owned());
            assert(self@ =~= TreeView { selected_id: Some(id@), ..v });
            self.clamp_selection();
        }
    }

    /// The items of `incoming` not already present, in order.
    fn fresh_items(&self, incoming: Vec<TreeItem>) -> (r: Vec<TreeItem>)
        ensures
            item_views(r@) == new_items(self@.items, item_views(incoming@)),
    {
        let ghost inc = item_views(incoming@);
        let _n = incoming.len();
        let mut out: Vec<TreeItem> = Vec::new();
        let mut src = incoming;
        let mut i: usize = 0;
        while src.len() > 0
            invariant
                i + src@.len() == inc.len(),
                inc.len() <= usize::MAX,
                item_views(src@) == inc.skip(i as int),
                item_views(out@) == new_items(self@.items, inc.take(i as int)),
            decreases src.len(),
        {
            let ghost before_src = item_views(src@);
            let x = src.remove(0);
            assert(item_views(src@) =~= before_src.drop_first());
            assert(x@ == inc.skip(i as int)[0]);
            proof {
                reveal_with_fuel(Seq::filter, 1);
                assert(inc.take(i + 1).drop_last() =~= inc.take(i as int));
                assert(inc.take(i + 1).last() == inc[i as int]);
            }
            if !self.contains_item(x.id.as_str()) {
                let ghost before = item_views(out@);
                out.push(x);
                assert(item_views(out@) =~= before.push(inc[i as int]));
            }
            i = i + 1;
            assert(item_views(src@) =~= inc.skip(i as int));
        }
        assert(inc.take(i as int) =~= inc);
        out
    }

    /// Appends fetched children of `parent_id` and marks the parent loaded.
    pub fn add_children(&mut self, parent_id: &str, children: Vec<TreeItem>)
        ensures
            final(self)@ == add_children_spec(old(self)@, parent_id@, item_views(children@)),
    {
        let ghost v = self@;
        let j = match self.first_index_of(parent_id) {
            Some(j) => j,
            None => {
                return;
            },
        };
        let mut fresh = self.fresh_items(children);
        let ghost fv = item_views(fresh@);
        self.items.append(&mut fresh);
        assert(item_views(self.items@) =~= v.items + fv);
        self.set_item_children(j, Children::Loaded);
        assert(self@ =~= TreeView {
            items: with_children(v.items + new_items(v.items, item_views(children@)), j as int, Children::Loaded),
            ..v
        });
        self.clamp_selection();
    }

    /// Appends more top-level items, skipping ids already present.
    pub fn append_items(&mut self, items: Vec<TreeItem>)
        ensures
            final(self)@ == clamp_spec(
                TreeView {
                    items: appended(old(self)@.items, item_views(items@), items@.len() as int),
                    ..old(self)@
                },
            ),
    {
        let ghost v = self@;
        let ghost inc = item_views(items@);
        let _n = items.len();
        let mut src = items;
        let mut i: usize = 0;
        while src.len() > 0
            invariant
                i + src@.len() == inc.len(),
                inc.len() <= usize::MAX,
                item_views(src@) == inc.skip(i as int),
                self@ == (TreeView { items: appended(v.items, inc, i as int), ..v }),
            decreases src.len(),
        {
            let ghost before_src = item_views(src@);
            let x = src.remove(0);
            assert(item_views(src@) =~= before_src.drop_first());
            assert(x@ == inc.skip(i as int)[0]);
            if !self.contains_item(x.id.as_str()) {
                self.items.push(x);
            }
            i = i + 1;
            assert(self@ =~= TreeView { items: appended(v.items, inc, i as int), ..v });
            assert(item_views(src@) =~= inc.skip(i as int));
        }
        self.clamp_selection();
    }
}


/// Restores expansion for the listed ids: unfetched nodes start loading,
/// loaded ones just reopen. Returns the state and the ids to fetch.
pub open spec fn restore_step(v: TreeView, restore: Set<Seq<char>>, k: int) -> (TreeView, Seq<
    Seq<char>,
>)
    decreases k,
{
    if k <= 0 {
        (v, Seq::empty())
    } else {
        let (w, fetch) = restore_step(v, restore, k - 1);
        let it = w.items[k - 1];
        if !restore.contains(it.id) {
            (w, fetch)
        } else if it.children == Children::NotLoaded {
            (
                TreeView {
                    items: with_children(w.items, k - 1, Children::Loading),
                    expanded: w.expanded.insert(it.id),
                    ..w
                },
                fetch.push(it.id),
            )
        } else if it.children == Children::Loaded {
            (TreeView { expanded: w.expanded.insert(it.id), ..w }, fetch)
        } else {
            (w, fetch)
        }
    }
}

/// Marks expanded nodes that hold loaded children as loading again (their
/// stale children stay visible), returning the ids to refetch.
pub open spec fn soft_reload_step(v: TreeView, expanded: Set<Seq<char>>, k: int) -> (TreeView, Seq<
    Seq<char>,
>)
    decreases k,
{
    if k <= 0 {
        (v, Seq::empty())
    } else {
        let (w, fetch) = soft_reload_step(v, expanded, k - 1);
        let it = w.items[k - 1];
        if expanded.contains(it.id) && it.children == Children::Loaded && has_loaded_children(
            w.items,
            k - 1,
        ) {
            (
                TreeView {
                    items: with_children(w.items, k - 1, Children::Loading),
                    expanded: w.expanded.insert(it.id),
                    ..w
                },
                fetch.push(it.id),
            )
        } else {
            (w, fetch)
        }
    }
}

pub open spec fn string_views(v: Seq<String>) -> Seq<Seq<char>> {
    v.map_values(|s: String| s@)
}

proof fn lemma_restore_len(v: TreeView, restore: Set<Seq<char>>, k: int)
    requires
        0 <= k <= v.items.len(),
    ensures
        restore_step(v, restore, k).0.items.len() == v.items.len(),
        forall|m: int| 0 <= m < v.items.len() ==> #[trigger] restore_step(v, restore, k).0.items[m].id == v.items[m].id
            && restore_step(v, restore, k).0.items[m].parent == v.items[m].parent,
        forall|m: int| k <= m < v.items.len() ==> #[trigger] restore_step(v, restore, k).0.items[m] == v.items[m],
        restore_step(v, restore, k).0.flat == v.flat,
        restore_step(v, restore, k).0.selected_row == v.selected_row,
        restore_step(v, restore, k).0.selected_id == v.selected_id,
        restore_step(v, restore, k).0.scroll == v.scroll,
        restore_step(v, restore, k).0.rendered_scroll == v.rendered_scroll,
        restore_step(v, restore, k).0.manual_scroll == v.manual_scroll,
        restore_step(v, restore, k).0.pending_prefix == v.pending_prefix,
    decreases k,
{
    if k > 0 {
        lemma_restore_len(v, restore, k - 1);
        let prev = restore_step(v, restore, k - 1).0;
        let cur = restore_step(v, restore, k).0;
        assert forall|m: int| 0 <= m < v.items.len() implies #[trigger] cur.items[m].id == v.items[m].id
            && cur.items[m].parent == v.items[m].parent by {
            assert(prev.items[m].id == v.items[m].id);
        }
    }
}

proof fn lemma_soft_len(v: TreeView, expanded: Set<Seq<char>>, k: int)
    requires
        0 <= k <= v.items.len(),
    ensures
        soft_reload_step(v, expanded, k).0.items.len() == v.items.len(),
        forall|m: int| 0 <= m < v.items.len() ==> #[trigger] soft_reload_step(v, expanded, k).0.items[m].id == v.items[m].id
            && soft_reload_step(v, expanded, k).0.items[m].parent == v.items[m].parent,
        forall|m: int| k <= m < v.items.len() ==> #[trigger] soft_reload_step(v, expanded, k).0.items[m] == v.items[m],
        soft_reload_step(v, expanded, k).0.flat == v.flat,
        soft_reload_step(v, expanded, k).0.selected_row == v.selected_row,
        soft_reload_step(v, expanded, k).0.selected_id == v.selected_id,
        soft_reload_step(v, expanded, k).0.scroll == v.scroll,
        soft_reload_step(v, expanded, k).0.rendered_scroll == v.rendered_scroll,
        soft_reload_step(v, expanded, k).0.manual_scroll == v.manual_scroll,
        soft_reload_step(v, expanded, k).0.pending_prefix == v.pending_prefix,
    decreases k,
{
    if k > 0 {
        lemma_soft_len(v, expanded, k - 1);
        let prev = soft_reload_step(v, expanded, k - 1).0;
        let cur = soft_reload_step(v, expanded, k).0;
        assert forall|m: int| 0 <= m < v.items.len() implies #[trigger] cur.items[m].id == v.items[m].id
            && cur.items[m].parent == v.items[m].parent by {
            assert(prev.items[m].id == v.items[m].id);
        }
    }
}

/// Child lists depend only on ids and parents.
proof fn lemma_child_indices_same(a: Seq<ItemView>, b: Seq<ItemView>, id: Seq<char>, k: int)
    requires
        a.len() == b.len(),
        0 <= k <= a.len(),
        forall|m: int| 0 <= m < a.len() ==> #[trigger] a[m].parent == b[m].parent,
    ensures
        child_indices_upto(a, id, k) == child_indices_upto(b, id, k),
    decreases k,
{
    if k > 0 {
        lemma_child_indices_same(a, b, id, k - 1);
    }
}

impl TreeState {
    /// Replaces the items, keeping only the expansion of ids in `preserve`
    /// that are still present; the selection is kept by id when possible.
    pub fn set_items(&mut self, items: Vec<TreeItem>, preserve: &IdSet)
        ensures
            final(self)@ == set_items_spec(old(self)@, item_views(items@), preserve@),
    {
        let ghost v = self@;
        let ghost iv = item_views(items@);
        let previous = self.selected_item_id.clone();
        self.items = items;
        let preserved = match &previous {
            Some(id) => self.contains_item(id.as_str()),
            None => false,
        };
        let old_ids = self.expanded_item_ids.to_vec();
        let mut kept = IdSet::new();
        let mut k: usize = 0;
        while k < old_ids.len()
            invariant
                k <= old_ids.len(),
                self@.items == iv,
                forall|x: Seq<char>| v.expanded.contains(x) <==> crate::collections::id_views(old_ids@).contains(x),
                forall|x: Seq<char>| #[trigger] kept@.contains(x) <==> (crate::collections::id_views(old_ids@).take(k as int).contains(x)
                    && preserve@.contains(x) && has_id(iv, x)),
            decreases old_ids.len() - k,
        {
            let id = &old_ids[k];
            let ghost t0 = crate::collections::id_views(old_ids@).take(k as int);
            let ghost x0 = old_ids@[k as int]@;
            assert(crate::collections::id_views(old_ids@).take(k + 1) =~= t0.push(x0));
            if preserve.contains(id.as_str()) && self.contains_item(id.as_str()) {
                kept.insert(id.clone());
            }
            assert forall|x: Seq<char>| #[trigger] kept@.contains(x) <==> (crate::collections::id_views(old_ids@).take(k + 1).contains(x)
                && preserve@.contains(x) && has_id(iv, x)) by {
                crate::collections::lemma_contains_push(t0, x0, x);
            }
            k = k + 1;
        }
        assert(crate::collections::id_views(old_ids@).take(old_ids.len() as int) =~= crate::collections::id_views(old_ids@));
        self.expanded_item_ids = kept;
        self.selected_item_id = if preserved {
            previous
        } else if self.items.len() > 0 {
            Some(self.items[0].id.clone())
        } else {
            None
        };
        self.selected_row = 0;
        self.pending_goto_prefix = false;
        if !preserved {
            self.scroll = 0;
        }
        assert(self@.expanded =~= v.expanded.filter(|x: Seq<char>| preserve@.contains(x) && has_id(iv, x)));
        assert(self@ =~= TreeView {
            items: iv,
            expanded: v.expanded.filter(|x: Seq<char>| preserve@.contains(x) && has_id(iv, x)),
            selected_id: if preserved {
                v.selected_id
            } else if iv.len() > 0 {
                Some(iv[0].id)
            } else {
                None
            },
            selected_row: 0,
            pending_prefix: false,
            scroll: if preserved { v.scroll } else { 0 },
            ..v
        });
        self.clamp_selection();
    }

    /// For each id in `restore` whose children are not fetched yet, marks it
    /// expanded and loading and returns it; already-loaded ids just reopen.
    pub fn nodes_needing_child_reload(&mut self, restore: &IdSet) -> (r: Vec<String>)
        ensures
            ({
                let (w, fetch) = restore_step(old(self)@, restore@, old(self)@.items.len() as int);
                &&& string_views(r@) == fetch
                &&& final(self)@ == if fetch.len() > 0 {
                    clamp_spec(w)
                } else {
                    w
                }
            }),
    {
        let ghost v = self@;
        let mut to_fetch: Vec<String> = Vec::new();
        let mut index: usize = 0;
        let n = self.items.len();
        while index < n
            invariant
                n == self.items@.len(),
                n == v.items.len(),
                index <= n,
                self@ == restore_step(v, restore@, index as int).0,
                string_views(to_fetch@) == restore_step(v, restore@, index as int).1,
            decreases n - index,
        {
            proof {
                lemma_restore_len(v, restore@, index as int);
            }
            assert(self@.items[index as int] == self.items@[index as int]@);
            let ghost w = self@;
            let ghost before = string_views(to_fetch@);
            if restore.contains(self.items[index].id.as_str()) {
                if self.items[index].children == Children::NotLoaded {
                    let id = self.items[index].id.clone();
                    self.set_item_children(index, Children::Loading);
                    self.expanded_item_ids.insert(id.clone());
                    to_fetch.push(id);
                    assert(string_views(to_fetch@) =~= before.push(w.items[index as int].id));
                } else if self.items[index].children == Children::Loaded {
                    let id = self.items[index].id.clone();
                    self.expanded_item_ids.insert(id);
                }
            }
            index = index + 1;
            assert(self@ =~= restore_step(v, restore@, index as int).0);
        }
        if to_fetch.len() > 0 {
            self.clamp_selection();
        }
        to_fetch
    }

    /// Marks every node listed in `expanded` that holds loaded children as
    /// loading again, keeping its stale subtree on screen; returns their ids.
    pub fn begin_soft_reload(&mut self, expanded: &IdSet) -> (r: Vec<String>)
        ensures
            ({
                let (w, fetch) = soft_reload_step(old(self)@, expanded@, old(self)@.items.len() as int);
                &&& string_views(r@) == fetch
                &&& final(self)@ == w
            }),
    {
        let ghost v = self@;
        let mut to_fetch: Vec<String> = Vec::new();
        let mut index: usize = 0;
        let n = self.items.len();
        while index < n
            invariant
                n == self.items@.len(),
                n == v.items.len(),
                index <= n,
                self@ == soft_reload_step(v, expanded@, index as int).0,
                string_views(to_fetch@) == soft_reload_step(v, expanded@, index as int).1,
            decreases n - index,
        {
            proof {
                lemma_soft_len(v, expanded@, index as int);
            }
            assert(self@.items[index as int] == self.items@[index as int]@);
            let ghost w = self@;
            let ghost before = string_views(to_fetch@);
            if expanded.contains(self.items[index].id.as_str()) && self.items[index].children
                == Children::Loaded {
                let kids = self.child_indices_of(self.items[index].id.as_str());
                if kids.len() > 0 {
                    let id = self.items[index].id.clone();
                    self.set_item_children(index, Children::Loading);
                    self.expanded_item_ids.insert(id.clone());
                    to_fetch.push(id);
                    assert(string_views(to_fetch@) =~= before.push(w.items[index as int].id));
                }
            }
            index = index + 1;
            assert(self@ =~= soft_reload_step(v, expanded@, index as int).0);
        }
        to_fetch
    }

    /// Scrolls the viewport by `delta` rows without moving the selection.
    pub fn scroll_viewport(&mut self, delta: isize, height: usize)
        ensures
            ({
                let count = rows_of(old(self)@).len();
                if count == 0 || height == 0 {
                    final(self)@ == (TreeView {
                        scroll: 0,
                        rendered_scroll: 0,
                        manual_scroll: false,
                        ..old(self)@
                    })
                } else {
                    let viewport = if height < count { height as int } else { count as int };
                    let max_scroll = count - viewport;
                    let base = if old(self)@.rendered_scroll < max_scroll {
                        old(self)@.rendered_scroll as int
                    } else {
                        max_scroll
                    };
                    let moved = sat_add_signed(base, delta as int);
                    let next = if moved < max_scroll { moved } else { max_scroll };
                    final(self)@ == (TreeView {
                        scroll: next as nat,
                        rendered_scroll: next as nat,
                        manual_scroll: true,
                        ..old(self)@
                    })
                }
            }),
    {
        let ghost v = self@;
        let row_count = self.rows().len();
        if row_count == 0 || height == 0 {
            self.scroll = 0;
            self.rendered_scroll = 0;
            self.manual_scroll = false;
            assert(self@ =~= TreeView { scroll: 0, rendered_scroll: 0, manual_scroll: false, ..v });
            return;
        }
        let viewport = if height < row_count { height } else { row_count };
        let max_scroll = row_count - viewport;
        let base = if self.rendered_scroll < max_scroll { self.rendered_scroll } else { max_scroll };
        let moved = saturating_add_signed(base, delta);
        self.scroll = if moved < max_scroll { moved } else { max_scroll };
        self.rendered_scroll = self.scroll;
        self.manual_scroll = true;
        assert(self@ =~= TreeView {
            scroll: self.scroll as nat,
            rendered_scroll: self.scroll as nat,
            manual_scroll: true,
            ..v
        });
    }

    /// The window of rows to draw in a viewport of `height` rows. The settled
    /// offset (centred on the selection unless the user scrolled by hand) is
    /// recorded as the scroll offset; the returned window starts at
    /// `animated_offset`, the position a scroll animation has reached,
    /// clamped to the last full page.
    pub fn visible_range(&mut self, height: usize, animated_offset: usize) -> (r: std::ops::Range<
        usize,
    >)
        ensures
            ({
                let count = rows_of(old(self)@).len() as int;
                if count == 0 || height == 0 {
                    r.start == 0 && r.end == 0 && final(self)@ == old(self)@
                } else {
                    let viewport = if height < count { height as int } else { count };
                    let max_scroll = count - viewport;
                    let selected = if old(self)@.selected_row < count - 1 {
                        old(self)@.selected_row as int
                    } else {
                        count - 1
                    };
                    let offset = if old(self)@.manual_scroll {
                        if old(self)@.scroll < max_scroll {
                            old(self)@.scroll as int
                        } else {
                            max_scroll
                        }
                    } else {
                        let centred = if selected > viewport / 2 { selected - viewport / 2 } else { 0 };
                        if centred < max_scroll { centred } else { max_scroll }
                    };
                    let start = if animated_offset < max_scroll { animated_offset as int } else { max_scroll };
                    &&& final(self)@ == (TreeView { rendered_scroll: offset as nat, ..old(self)@ })
                    &&& r.start == start
                    &&& r.end == if start + viewport < count { start + viewport } else { count }
                }
            }),
    {
        let ghost v = self@;
        let row_count = self.rows().len();
        if row_count == 0 || height == 0 {
            return 0..0;
        }
        let viewport = if height < row_count { height } else { row_count };
        let max_scroll = row_count - viewport;
        let selected = if self.selected_row < row_count - 1 { self.selected_row } else { row_count - 1 };
        let mut offset = if self.scroll < max_scroll { self.scroll } else { max_scroll };
        if !self.manual_scroll {
            let centred = if selected > viewport / 2 { selected - viewport / 2 } else { 0 };
            offset = if centred < max_scroll { centred } else { max_scroll };
        }
        self.rendered_scroll = offset;
        assert(self@ =~= TreeView { rendered_scroll: offset as nat, ..v });
        let start = if animated_offset < max_scroll { animated_offset } else { max_scroll };
        let end = if start + viewport < row_count { start + viewport } else { row_count };
        start..end
    }
}


/// The ids reachable from `id` through at most `fuel` child steps.
pub open spec fn desc_spec(items: Seq<ItemView>, id: Seq<char>, fuel: nat) -> Set<Seq<char>>
    decreases fuel, 0nat, 0nat,
{
    if fuel == 0 {
        Set::empty()
    } else {
        desc_kids(items, child_indices(items, id), (fuel - 1) as nat)
    }
}

/// The ids of `kids` and of everything reachable from them.
pub open spec fn desc_kids(items: Seq<ItemView>, kids: Seq<usize>, fuel: nat) -> Set<Seq<char>>
    decreases fuel, 1nat, kids.len(),
{
    if kids.len() == 0 {
        Set::empty()
    } else {
        let c = items[kids.last() as int].id;
        desc_kids(items, kids.drop_last(), fuel).insert(c).union(desc_spec(items, c, fuel))
    }
}

/// Every transitive child of `id` (a chain of distinct ids is never longer
/// than the number of items).
pub open spec fn descendants(items: Seq<ItemView>, id: Seq<char>) -> Set<Seq<char>> {
    desc_spec(items, id, items.len())
}

/// Items whose id is `spare` or not in `remove`.
pub open spec fn keep_items(items: Seq<ItemView>, remove: Set<Seq<char>>, spare: Option<Seq<char>>) -> Seq<
    ItemView,
> {
    items.filter(|it: ItemView| spare == Some(it.id) || !remove.contains(it.id))
}

pub open spec fn reload_children_spec(v: TreeView, parent: Seq<char>) -> (TreeView, bool) {
    match first_index(v.items, parent) {
        None => (v, false),
        Some(j) => if v.items[j as int].children == Children::Unknown {
            (v, false)
        } else {
            let d = descendants(v.items, parent);
            let v1 = if exists|x: Seq<char>| d.contains(x) {
                TreeView {
                    items: keep_items(v.items, d, Some(parent)),
                    expanded: v.expanded.difference(d),
                    ..v
                }
            } else {
                v
            };
            let v2 = set_children_spec(v1, parent, Children::Loading);
            (clamp_spec(TreeView { expanded: v2.expanded.insert(parent), ..v2 }), true)
        },
    }
}

/// Refreshes the display fields of an existing item (keeping a loaded or
/// loading subtree state) or appends a new one.
pub open spec fn merge_spec(items: Seq<ItemView>, x: ItemView) -> Seq<ItemView> {
    match first_index(items, x.id) {
        Some(j) => {
            let e = items[j as int];
            items.update(
                j as int,
                ItemView {
                    label: x.label,
                    kind: x.kind,
                    status: x.status,
                    root_order: x.root_order,
                    parent: x.parent,
                    fields: x.fields,
                    children: if e.children == Children::Loaded || e.children == Children::Loading {
                        e.children
                    } else {
                        x.children
                    },
                    id: e.id,
                },
            )
        },
        None => items.push(x),
    }
}

/// `items` with the first `k` incoming items merged in order.
pub open spec fn merged(items: Seq<ItemView>, incoming: Seq<ItemView>, k: int) -> Seq<ItemView>
    decreases k,
{
    if k <= 0 {
        items
    } else {
        merge_spec(merged(items, incoming, k - 1), incoming[k - 1])
    }
}

impl TreeState {
    fn collect_descendants(&self, id: &str, fuel: usize, out: &mut IdSet)
        requires
            fuel <= self.items@.len(),
        ensures
            final(out)@ == old(out)@.union(desc_spec(self@.items, id@, fuel as nat)),
        decreases fuel, 0nat, 0nat,
    {
        if fuel == 0 {
            assert(final(out)@ =~= old(out)@.union(desc_spec(self@.items, id@, fuel as nat)));
            return;
        }
        let kids = self.child_indices_of(id);
        self.collect_kids(&kids, fuel - 1, out);
    }

    fn collect_kids(&self, kids: &Vec<usize>, fuel: usize, out: &mut IdSet)
        requires
            fuel <= self.items@.len(),
            forall|k: int| 0 <= k < kids@.len() ==> #[trigger] kids@[k] < self.items@.len(),
        ensures
            final(out)@ == old(out)@.union(desc_kids(self@.items, kids@, fuel as nat)),
        decreases fuel, 1nat, kids@.len(),
    {
        let ghost start = out@;
        let mut k: usize = 0;
        while k < kids.len()
            invariant
                k <= kids.len(),
                fuel <= self.items@.len(),
                forall|j: int| 0 <= j < kids@.len() ==> #[trigger] kids@[j] < self.items@.len(),
                out@ == start.union(desc_kids(self@.items, kids@.take(k as int), fuel as nat)),
            decreases kids.len() - k,
        {
            let idx = kids[k];
            assert(self@.items[idx as int] == self.items@[idx as int]@);
            assert(kids@.take(k + 1).drop_last() =~= kids@.take(k as int));
            assert(kids@.take(k + 1).last() == idx);
            out.insert(self.items[idx].id.clone());
            self.collect_descendants(self.items[idx].id.as_str(), fuel, out);
            k = k + 1;
            assert(out@ =~= start.union(desc_kids(self@.items, kids@.take(k as int), fuel as nat)));
        }
        assert(kids@.take(kids.len() as int) =~= kids@);
    }

    /// The ids of every transitive child of `parent_id`.
    fn descendant_ids(&self, parent_id: &str) -> (r: IdSet)
        ensures
            r@ == descendants(self@.items, parent_id@),
    {
        let mut out = IdSet::new();
        self.collect_descendants(parent_id, self.items.len(), &mut out);
        assert(out@ =~= descendants(self@.items, parent_id@));
        out
    }

    /// The expanded ids strictly below `parent_id`.
    pub fn expanded_descendant_ids(&self, parent_id: &str) -> (r: IdSet)
        ensures
            r@ == self@.expanded.intersect(descendants(self@.items, parent_id@)),
    {
        let d = self.descendant_ids(parent_id);
        let ids = self.expanded_item_ids.to_vec();
        let mut out = IdSet::new();
        let mut k: usize = 0;
        while k < ids.len()
            invariant
                k <= ids.len(),
                d@ == descendants(self@.items, parent_id@),
                forall|x: Seq<char>| self@.expanded.contains(x) <==> crate::collections::id_views(ids@).contains(x),
                forall|x: Seq<char>| #[trigger] out@.contains(x) <==> (crate::collections::id_views(ids@).take(k as int).contains(x)
                    && d@.contains(x)),
            decreases ids.len() - k,
        {
            let ghost t0 = crate::collections::id_views(ids@).take(k as int);
            let ghost x0 = ids@[k as int]@;
            assert(crate::collections::id_views(ids@).take(k + 1) =~= t0.push(x0));
            if d.contains(ids[k].as_str()) {
                out.insert(ids[k].clone());
            }
            assert forall|x: Seq<char>| #[trigger] out@.contains(x) <==> (crate::collections::id_views(ids@).take(k + 1).contains(x)
                && d@.contains(x)) by {
                crate::collections::lemma_contains_push(t0, x0, x);
            }
            k = k + 1;
        }
        assert(crate::collections::id_views(ids@).take(ids.len() as int) =~= crate::collections::id_views(ids@));
        assert(out@ =~= self@.expanded.intersect(descendants(self@.items, parent_id@)));
        out
    }

    /// Keeps the items whose id is `spare` or is not in `remove`.
    fn keep_items_exec(&mut self, remove: &IdSet, spare: Option<&str>)
        ensures
            final(self)@ == (TreeView {
                items: keep_items(old(self)@.items, remove@, match spare { Some(s) => Some(s@), None => None }),
                ..old(self)@
            }),
    {
        let ghost v = self@;
        let ghost sp = match spare { Some(s) => Some(s@), None => None::<Seq<char>> };
        let _n = self.items.len();
        let mut src: Vec<TreeItem> = Vec::new();
        std::mem::swap(&mut src, &mut self.items);
        let mut kept: Vec<TreeItem> = Vec::new();
        let mut i: usize = 0;
        while src.len() > 0
            invariant
                i + src@.len() == v.items.len(),
                v.items.len() <= usize::MAX,
                item_views(src@) == v.items.skip(i as int),
                item_views(kept@) == keep_items(v.items.take(i as int), remove@, sp),
                sp == match spare { Some(s) => Some(s@), None => None::<Seq<char>> },
            decreases src.len(),
        {
            let ghost before_src = item_views(src@);
            let ghost raw = src@;
            let x = src.remove(0);
            assert(x == raw[0]);
            assert(before_src[0] == raw[0]@);
            assert(v.items.skip(i as int)[0] == v.items[i as int]);
            assert(item_views(src@) =~= before_src.drop_first());
            assert(x@ == v.items[i as int]);
            proof {
                reveal_with_fuel(Seq::filter, 1);
                assert(v.items.take(i + 1).drop_last() =~= v.items.take(i as int));
            }
            let spared = match spare {
                Some(s) => str_eq(x.id.as_str(), s),
                None => false,
            };
            proof {
                match spare {
                    Some(sv) => {
                        assert(sp == Some(sv@));
                        assert(spared == (x.id@ == sv@));
                        assert(x@.id == x.id@);
                    },
                    None => {},
                }
            }
            assert(spared == (sp == Some(x@.id)));
            let ghost p = sp == Some(x@.id) || !remove@.contains(x@.id);
            assert(keep_items(v.items.take(i + 1), remove@, sp) == if p {
                keep_items(v.items.take(i as int), remove@, sp).push(x@)
            } else {
                keep_items(v.items.take(i as int), remove@, sp)
            });
            if spared || !remove.contains(x.id.as_str()) {
                let ghost before = item_views(kept@);
                kept.push(x);
                assert(item_views(kept@) =~= before.push(v.items[i as int]));
            }
            i = i + 1;
            assert(item_views(src@) =~= v.items.skip(i as int));
        }
        assert(v.items.take(i as int) =~= v.items);
        self.items = kept;
        assert(self@ =~= TreeView { items: keep_items(v.items, remove@, sp), ..v });
    }

    /// Drops every descendant of `parent_id` and marks it loading so a fresh
    /// child fetch can repopulate it; it stays expanded. Returns `false` for
    /// unknown ids and for nodes with no known children.
    pub fn reload_children(&mut self, parent_id: &str) -> (r: bool)
        ensures
            (final(self)@, r) == reload_children_spec(old(self)@, parent_id@),
    {
        let ghost v = self@;
        let j = match self.first_index_of(parent_id) {
            Some(j) => j,
            None => {
                return false;
            },
        };
        assert(v.items[j as int] == self.items@[j as int]@);
        if self.items[j].children == Children::Unknown {
            return false;
        }
        let d = self.descendant_ids(parent_id);
        let all = d.to_vec();
        let any = all.len() > 0;
        proof {
            if any {
                assert(crate::collections::id_views(all@)[0] == all@[0]@);
                assert(d@.contains(all@[0]@));
            } else {
                assert forall|x: Seq<char>| !d@.contains(x) by {
                    if d@.contains(x) {
                        let k = choose|k: int| 0 <= k < crate::collections::id_views(all@).len()
                            && crate::collections::id_views(all@)[k] == x;
                    }
                }
            }
        }
        if any {
            self.keep_items_exec(&d, Some(parent_id));
            self.expanded_item_ids.remove_all(&d);
        }
        self.set_children_of(parent_id, Children::Loading);
        let ghost v2 = self@;
        self.expanded_item_ids.insert(parent_id.to_owned());
        assert(self@ =~= TreeView { expanded: v2.expanded.insert(parent_id@), ..v2 });
        self.clamp_selection();
        true
    }
}


/// Ids to drop with their subtrees: roots (among the first `k` items) that
/// are not in `keep`.
pub open spec fn dropped_roots(items: Seq<ItemView>, keep: Set<Seq<char>>, k: int) -> Set<Seq<char>>
    decreases k,
{
    if k <= 0 {
        Set::empty()
    } else {
        let prev = dropped_roots(items, keep, k - 1);
        let id = items[k - 1].id;
        if is_root(items, k - 1) && !keep.contains(id) {
            prev.insert(id).union(descendants(items, id))
        } else {
            prev
        }
    }
}

pub open spec fn retain_roots_spec(v: TreeView, keep: Set<Seq<char>>) -> TreeView {
    let d = dropped_roots(v.items, keep, v.items.len() as int);
    if exists|x: Seq<char>| d.contains(x) {
        clamp_spec(
            TreeView {
                items: keep_items(v.items, d, None),
                expanded: v.expanded.difference(d),
                ..v
            },
        )
    } else {
        v
    }
}

/// Direct children of `parent` (among the first `k` items) that are not in
/// `incoming`, with their subtrees.
pub open spec fn stale_children(
    items: Seq<ItemView>,
    parent: Seq<char>,
    incoming: Set<Seq<char>>,
    k: int,
) -> Set<Seq<char>>
    decreases k,
{
    if k <= 0 {
        Set::empty()
    } else {
        let prev = stale_children(items, parent, incoming, k - 1);
        let id = items[k - 1].id;
        if items[k - 1].parent == Some(parent) && !incoming.contains(id) {
            prev.insert(id).union(descendants(items, id))
        } else {
            prev
        }
    }
}

pub open spec fn ids_of(items: Seq<ItemView>) -> Set<Seq<char>> {
    Set::new(|x: Seq<char>| has_id(items, x))
}

pub open spec fn replace_children_spec(v: TreeView, parent: Seq<char>, incoming: Seq<ItemView>) -> TreeView {
    if !has_id(v.items, parent) {
        v
    } else {
        let d = stale_children(v.items, parent, ids_of(incoming), v.items.len() as int);
        let v1 = if exists|x: Seq<char>| d.contains(x) {
            TreeView {
                items: keep_items(v.items, d, None),
                expanded: v.expanded.difference(d),
                ..v
            }
        } else {
            v
        };
        let v2 = TreeView { items: merged(v1.items, incoming, incoming.len() as int), ..v1 };
        clamp_spec(set_children_spec(v2, parent, Children::Loaded))
    }
}

/// The last item index below `k` whose id is `id`.
pub open spec fn last_index_below(items: Seq<ItemView>, id: Seq<char>, k: int) -> Option<nat>
    decreases k,
{
    if k <= 0 || k > items.len() {
        None
    } else if items[k - 1].id == id {
        Some((k - 1) as nat)
    } else {
        last_index_below(items, id, k - 1)
    }
}

/// Walks parent links upward from `cur` while the parent is loaded.
pub open spec fn root_ancestor(items: Seq<ItemView>, cur: Seq<char>, fuel: nat) -> Seq<char>
    decreases fuel,
{
    if fuel == 0 {
        cur
    } else {
        match last_index_below(items, cur, items.len() as int) {
            None => cur,
            Some(i) => match items[i as int].parent {
                Some(p) => if has_id(items, p) {
                    root_ancestor(items, p, (fuel - 1) as nat)
                } else {
                    cur
                },
                None => cur,
            },
        }
    }
}

pub proof fn lemma_last_index_below(items: Seq<ItemView>, id: Seq<char>, k: int)
    ensures
        last_index_below(items, id, k) matches Some(j) ==> j < k && j < items.len(),
    decreases k,
{
    if 0 < k <= items.len() && items[k - 1].id != id {
        lemma_last_index_below(items, id, k - 1);
    }
}

impl TreeState {
    /// Refreshes an existing item's display fields or appends a new item.
    fn merge_item(&mut self, incoming: TreeItem)
        ensures
            final(self)@ == (TreeView { items: merge_spec(old(self)@.items, incoming@), ..old(self)@ }),
    {
        let ghost v = self@;
        let ghost x = incoming@;
        match self.first_index_of(incoming.id.as_str()) {
            Some(j) => {
                let mut existing = self.take_item(j);
                existing.label = incoming.label;
                existing.kind = incoming.kind;
                existing.status = incoming.status;
                existing.root_order = incoming.root_order;
                existing.parent_id = incoming.parent_id;
                existing.field_values = incoming.field_values;
                if !(existing.children == Children::Loaded || existing.children == Children::Loading) {
                    existing.children = incoming.children;
                }
                self.replace_item(j, existing);
                assert(self@ =~= TreeView { items: merge_spec(v.items, x), ..v });
            },
            None => {
                self.items.push(incoming);
                assert(self@ =~= TreeView { items: merge_spec(v.items, x), ..v });
            },
        }
    }

    fn merge_all(&mut self, incoming: Vec<TreeItem>)
        ensures
            final(self)@ == (TreeView {
                items: merged(old(self)@.items, item_views(incoming@), incoming@.len() as int),
                ..old(self)@
            }),
    {
        let ghost v = self@;
        let ghost inc = item_views(incoming@);
        let _n = incoming.len();
        let mut src = incoming;
        let mut i: usize = 0;
        while src.len() > 0
            invariant
                i + src@.len() == inc.len(),
                inc.len() <= usize::MAX,
                item_views(src@) == inc.skip(i as int),
                self@ == (TreeView { items: merged(v.items, inc, i as int), ..v }),
            decreases src.len(),
        {
            let ghost before_src = item_views(src@);
            let ghost raw = src@;
            let x = src.remove(0);
            assert(x == raw[0]);
            assert(before_src[0] == raw[0]@);
            assert(inc.skip(i as int)[0] == inc[i as int]);
            assert(item_views(src@) =~= before_src.drop_first());
            self.merge_item(x);
            i = i + 1;
            assert(item_views(src@) =~= inc.skip(i as int));
        }
    }

    /// Merges a page of root items in place: known roots get fresh display
    /// fields (keeping their subtrees), new roots are appended.
    pub fn merge_root_items(&mut self, incoming: Vec<TreeItem>)
        ensures
            final(self)@ == clamp_spec(
                TreeView {
                    items: merged(old(self)@.items, item_views(incoming@), incoming@.len() as int),
                    ..old(self)@
                },
            ),
    {
        self.merge_all(incoming);
        self.clamp_selection();
    }

    /// Removes the root items whose ids are not in `keep`, with their subtrees.
    pub fn retain_roots(&mut self, keep: &IdSet)
        ensures
            final(self)@ == retain_roots_spec(old(self)@, keep@),
    {
        let ghost v = self@;
        let mut remove = IdSet::new();
        let mut k: usize = 0;
        while k < self.items.len()
            invariant
                k <= self.items.len(),
                self@ == v,
                remove@ == dropped_roots(v.items, keep@, k as int),
            decreases self.items.len() - k,
        {
            assert(v.items[k as int] == self.items@[k as int]@);
            let root = match &self.items[k].parent_id {
                Some(p) => !self.contains_item(p.as_str()),
                None => true,
            };
            assert(root == is_root(v.items, k as int));
            if root && !keep.contains(self.items[k].id.as_str()) {
                let ghost before = remove@;
                remove.insert(self.items[k].id.clone());
                let d = self.descendant_ids(self.items[k].id.as_str());
                let all = d.to_vec();
                let mut m: usize = 0;
                while m < all.len()
                    invariant
                        m <= all.len(),
                        forall|x: Seq<char>| d@.contains(x) <==> crate::collections::id_views(all@).contains(x),
                        remove@ == before.insert(v.items[k as int].id).union(
                            crate::collections::id_views(all@).take(m as int).to_set(),
                        ),
                    decreases all.len() - m,
                {
                    let ghost t0 = crate::collections::id_views(all@).take(m as int);
                    let ghost x0 = all@[m as int]@;
                    assert(crate::collections::id_views(all@).take(m + 1) =~= t0.push(x0));
                    remove.insert(all[m].clone());
                    assert forall|x: Seq<char>| #[trigger] t0.push(x0).to_set().contains(x) <==> (t0.to_set().contains(x) || x == x0) by {
                        crate::collections::lemma_contains_push(t0, x0, x);
                    }
                    m = m + 1;
                    assert(remove@ =~= before.insert(v.items[k as int].id).union(
                        crate::collections::id_views(all@).take(m as int).to_set(),
                    ));
                }
                assert(crate::collections::id_views(all@).take(all.len() as int) =~= crate::collections::id_views(all@));
                assert(crate::collections::id_views(all@).to_set() =~= d@);
                assert(remove@ =~= dropped_roots(v.items, keep@, k + 1));
            }
            k = k + 1;
        }
        let all = remove.to_vec();
        proof {
            if all.len() > 0 {
                assert(crate::collections::id_views(all@)[0] == all@[0]@);
                assert(remove@.contains(all@[0]@));
            } else {
                assert forall|x: Seq<char>| !remove@.contains(x) by {
                    if remove@.contains(x) {
                        let j = choose|j: int| 0 <= j < crate::collections::id_views(all@).len()
                            && crate::collections::id_views(all@)[j] == x;
                    }
                }
            }
        }
        if all.len() > 0 {
            self.keep_items_exec(&remove, None);
            self.expanded_item_ids.remove_all(&remove);
            self.clamp_selection();
        }
    }

    /// Swaps in a fresh set of direct children for `parent_id`: kept children
    /// are refreshed in place, new ones appended, vanished ones removed with
    /// their subtrees; the parent is marked loaded.
    pub fn replace_children(&mut self, parent_id: &str, incoming: Vec<TreeItem>)
        ensures
            final(self)@ == replace_children_spec(old(self)@, parent_id@, item_views(incoming@)),
    {
        let ghost v = self@;
        if !self.contains_item(parent_id) {
            return;
        }
        let ghost inc = item_views(incoming@);
        let mut incoming_ids = IdSet::new();
        let mut q: usize = 0;
        while q < incoming.len()
            invariant
                q <= incoming.len(),
                inc == item_views(incoming@),
                forall|x: Seq<char>| #[trigger] incoming_ids@.contains(x) <==> exists|j: int|
                    0 <= j < q && #[trigger] inc[j].id == x,
            decreases incoming.len() - q,
        {
            assert(inc[q as int] == incoming@[q as int]@);
            let ghost before = incoming_ids@;
            incoming_ids.insert(incoming[q].id.clone());
            assert forall|x: Seq<char>| #[trigger] incoming_ids@.contains(x) <==> exists|j: int|
                0 <= j < q + 1 && #[trigger] inc[j].id == x by {
                if incoming_ids@.contains(x) {
                    if x == inc[q as int].id {
                        assert(inc[q as int].id == x);
                    } else {
                        assert(before.contains(x));
                        let j = choose|j: int| 0 <= j < q && #[trigger] inc[j].id == x;
                        assert(inc[j].id == x);
                    }
                }
                if exists|j: int| 0 <= j < q + 1 && #[trigger] inc[j].id == x {
                    let j = choose|j: int| 0 <= j < q + 1 && #[trigger] inc[j].id == x;
                    if j < q {
                        assert(before.contains(x));
                    }
                }
            }
            q = q + 1;
        }
        assert(incoming_ids@ =~= ids_of(inc));
        let mut remove = IdSet::new();
        let mut k: usize = 0;
        while k < self.items.len()
            invariant
                k <= self.items.len(),
                self@ == v,
                incoming_ids@ == ids_of(inc),
                remove@ == stale_children(v.items, parent_id@, ids_of(inc), k as int),
            decreases self.items.len() - k,
        {
            assert(v.items[k as int] == self.items@[k as int]@);
            let direct = match &self.items[k].parent_id {
                Some(p) => str_eq(p.as_str(), parent_id),
                None => false,
            };
            assert(direct == (v.items[k as int].parent == Some(parent_id@)));
            if direct && !incoming_ids.contains(self.items[k].id.as_str()) {
                let ghost before = remove@;
                remove.insert(self.items[k].id.clone());
                let d = self.descendant_ids(self.items[k].id.as_str());
                let all = d.to_vec();
                let mut m: usize = 0;
                while m < all.len()
                    invariant
                        m <= all.len(),
                        forall|x: Seq<char>| d@.contains(x) <==> crate::collections::id_views(all@).contains(x),
                        remove@ == before.insert(v.items[k as int].id).union(
                            crate::collections::id_views(all@).take(m as int).to_set(),
                        ),
                    decreases all.len() - m,
                {
                    let ghost t0 = crate::collections::id_views(all@).take(m as int);
                    let ghost x0 = all@[m as int]@;
                    assert(crate::collections::id_views(all@).take(m + 1) =~= t0.push(x0));
                    remove.insert(all[m].clone());
                    assert forall|x: Seq<char>| #[trigger] t0.push(x0).to_set().contains(x) <==> (t0.to_set().contains(x) || x == x0) by {
                        crate::collections::lemma_contains_push(t0, x0, x);
                    }
                    m = m + 1;
                    assert(remove@ =~= before.insert(v.items[k as int].id).union(
                        crate::collections::id_views(all@).take(m as int).to_set(),
                    ));
                }
                assert(crate::collections::id_views(all@).take(all.len() as int) =~= crate::collections::id_views(all@));
                assert(crate::collections::id_views(all@).to_set() =~= d@);
                assert(remove@ =~= stale_children(v.items, parent_id@, ids_of(inc), k + 1));
            }
            k = k + 1;
        }
        let all = remove.to_vec();
        proof {
            if all.len() > 0 {
                assert(crate::collections::id_views(all@)[0] == all@[0]@);
                assert(remove@.contains(all@[0]@));
            } else {
                assert forall|x: Seq<char>| !remove@.contains(x) by {
                    if remove@.contains(x) {
                        let j = choose|j: int| 0 <= j < crate::collections::id_views(all@).len()
                            && crate::collections::id_views(all@)[j] == x;
                    }
                }
            }
        }
        if all.len() > 0 {
            self.keep_items_exec(&remove, None);
            self.expanded_item_ids.remove_all(&remove);
        }
        self.merge_all(incoming);
        self.set_children_of(parent_id, Children::Loaded);
        self.clamp_selection();
    }

    fn last_index_of(&self, id: &str) -> (r: Option<usize>)
        ensures
            r == match last_index_below(self@.items, id@, self@.items.len() as int) {
                Some(j) => Some(j as usize),
                None => None::<usize>,
            },
            r matches Some(j) ==> j < self.items@.len(),
    {
        proof {
            lemma_last_index_below(self@.items, id@, self@.items.len() as int);
        }
        let mut k = self.items.len();
        while k > 0
            invariant
                k <= self.items.len(),
                self@.items == item_views(self.items@),
                last_index_below(self@.items, id@, self@.items.len() as int) == last_index_below(
                    self@.items,
                    id@,
                    k as int,
                ),
            decreases k,
        {
            assert(self@.items[k - 1] == self.items@[k - 1]@);
            if str_eq(self.items[k - 1].id.as_str(), id) {
                return Some(k - 1);
            }
            k = k - 1;
        }
        None
    }

    /// The top-level ancestor of the selected item, walking parent links
    /// while the parent is loaded; `None` without a selection.
    pub fn selected_root_ancestor_id(&self) -> (r: Option<String>)
        ensures
            opt_view(r) == match self@.selected_id {
                Some(id) => Some(root_ancestor(self@.items, id, self@.items.len())),
                None => None::<Seq<char>>,
            },
    {
        let mut current = match &self.selected_item_id {
            Some(id) => id.clone(),
            None => {
                return None;
            },
        };
        let ghost start = current@;
        let mut fuel = self.items.len();
        loop
            invariant
                fuel <= self.items@.len(),
                self@.items == item_views(self.items@),
                root_ancestor(self@.items, start, self@.items.len()) == root_ancestor(
                    self@.items,
                    current@,
                    fuel as nat,
                ),
            ensures
                root_ancestor(self@.items, start, self@.items.len()) == current@,
            decreases fuel,
        {
            if fuel == 0 {
                break;
            }
            let _n = self.items.len();
            let index = match self.last_index_of(current.as_str()) {
                Some(i) => i,
                None => {
                    break;
                },
            };
            proof {
                lemma_last_index_below(self@.items, current@, self@.items.len() as int);
            }
            assert(self@.items[index as int] == self.items@[index as int]@);
            let next = match &self.items[index].parent_id {
                Some(p) => if self.contains_item(p.as_str()) {
                    Some(p.clone())
                } else {
                    None
                },
                None => None,
            };
            let ghost j = last_index_below(self@.items, current@, self@.items.len() as int)->Some_0;
            assert(j == index as nat);
            match next {
                Some(p) => {
                    assert(self@.items[j as int].parent == Some(p@));
                    assert(has_id(self@.items, p@));
                    assert(root_ancestor(self@.items, current@, fuel as nat) == root_ancestor(
                        self@.items,
                        p@,
                        (fuel - 1) as nat,
                    ));
                    current = p;
                    fuel = fuel - 1;
                },
                None => {
                    assert(root_ancestor(self@.items, current@, fuel as nat) == current@);
                    break;
                },
            }
        }
        Some(current)
    }
}


/// After clamping, the selection names a shown row: the selected row is in
/// range and the selected id is that row's item; a selected item that is
/// still shown stays selected.
pub proof fn lemma_clamp_selects_shown_row(v: TreeView)
    ensures
        ({
            let w = clamp_spec(v);
            let rows = rows_of(w);
            &&& rows == rows_of(v)
            &&& rows.len() == 0 ==> w.selected_row == 0 && w.selected_id is None
            &&& rows.len() > 0 ==> w.selected_row < rows.len() && w.selected_id == Some(row_id(w, rows, w.selected_row as int))
            &&& (match v.selected_id {
                Some(id) => find_row_from(v, rows_of(v), id, 0) is Some ==> w.selected_id == v.selected_id,
                None => true,
            })
        }),
{
    let rows = rows_of(v);
    if rows.len() > 0 {
        match v.selected_id {
            Some(id) => lemma_find_row_bound(v, rows, id, 0),
            None => {},
        }
    }
}

/// In flat mode every item is one row at depth zero, in item order, and
/// nothing expands.
pub proof fn lemma_flat_rows(v: TreeView)
    requires
        v.flat,
        v.items.len() <= usize::MAX,
    ensures
        rows_of(v).len() == v.items.len(),
        forall|r: int| 0 <= r < rows_of(v).len() ==> {
            &&& (#[trigger] rows_of(v)[r]).item_index == r
            &&& rows_of(v)[r].depth == 0
            &&& !rows_of(v)[r].expandable
        },
{
}

proof fn lemma_parent_row_nearest(rows: Seq<TreeRow>, depth: nat, before: int)
    requires
        0 <= before <= rows.len(),
    ensures
        match parent_row_from(rows, depth, before) {
            Some(p) => p < before && rows[p as int].depth + 1 == depth
                && forall|q: int| p < q < before ==> (#[trigger] rows[q]).depth + 1 != depth,
            None => forall|q: int| 0 <= q < before ==> (#[trigger] rows[q]).depth + 1 != depth,
        },
    decreases before,
{
    if before > 0 && rows[before - 1].depth + 1 != depth {
        lemma_parent_row_nearest(rows, depth, before - 1);
    }
}

/// Collapsing on a shown row that is not an expanded node moves the
/// selection to its parent row: the nearest row above it one level less
/// deep. When no row above is one level less deep (a top-level row), the
/// selection goes to the first row.
pub proof fn lemma_collapse_goes_to_parent(v: TreeView)
    requires
        v.selected_row < rows_of(v).len(),
        !(rows_of(v)[v.selected_row as int].expandable && rows_of(v)[v.selected_row as int].expanded),
    ensures
        ({
            let rows = rows_of(v);
            let r = v.selected_row as int;
            let d = rows[r].depth;
            let p = collapse_spec(v).selected_row as int;
            if exists|q: int| 0 <= q < r && (#[trigger] rows[q]).depth + 1 == d {
                &&& p < r
                &&& rows[p].depth + 1 == d
                &&& forall|q: int| p < q < r ==> (#[trigger] rows[q]).depth + 1 != d
            } else {
                p == 0
            }
        }),
{
    let rows = rows_of(v);
    let r = v.selected_row as int;
    let d = rows[r].depth;
    lemma_parent_row_nearest(rows, d as nat, r);
    if d == 0 {
        assert(forall|q: int| 0 <= q < r ==> (#[trigger] rows[q]).depth + 1 != d);
    }
}

} // verus!
