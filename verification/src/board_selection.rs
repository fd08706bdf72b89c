//! What the board's selection can name. Every operation on the board leaves
//! the selection empty, on a lane header, on an empty cell or on an issue of
//! the board's data, so a selected issue key always finds its issue.
use vstd::prelude::*;
use crate::board::{
    board_cells, board_lanes, board_move, board_step, cell_index, cell_index_from, cell_keys,
    column_cells, columns_cells, empty_key_spec, first_in_column, group_key_spec, has_prefix,
    horizontal_target, issue_index, issue_index_from, key_at, lane_cells, lane_column_entry,
    last_in_column, page_walk, position_from, select_first_spec, set_data_spec, vertical_target, assignee_updated, BoardAction,
    BoardGrouping, BoardView, CellView, LaneView,
};
use crate::models::{BoardData, IssueSummary};

verus! {

/// A key made for a lane header or an empty cell rather than for an issue.
pub open spec fn synthetic_key(key: Seq<char>) -> bool {
    has_prefix(key, "__board_group__:"@) || has_prefix(key, "__board_empty__:"@)
}

/// A key the board can select on `data`: a lane header, an empty cell or an
/// issue of the data.
pub open spec fn selectable_key(data: BoardData, key: Seq<char>) -> bool {
    synthetic_key(key) || issue_index(data.issues@, key) is Some
}

/// The selection is empty, or names a lane header, an empty cell or an issue
/// of the board's data.
pub open spec fn selection_names_issue(v: BoardView) -> bool {
    match v.selected {
        None => true,
        Some(key) => synthetic_key(key) || match v.data {
            Some(data) => issue_index(data.issues@, key) is Some,
            None => false,
        },
    }
}

proof fn lemma_group_key_synthetic(name: Seq<char>)
    ensures
        synthetic_key(group_key_spec(name)),
{
    assert(group_key_spec(name).take("__board_group__:"@.len() as int) =~= "__board_group__:"@);
}

proof fn lemma_empty_key_synthetic(name: Seq<char>, column: nat)
    ensures
        synthetic_key(empty_key_spec(name, column)),
{
    let e = empty_key_spec(name, column);
    let p = "__board_empty__:"@;
    assert(e.take(p.len() as int) =~= p);
}

proof fn lemma_cell_index_in_range(cells: Seq<CellView>, key: Seq<char>, i: int)
    requires
        0 <= i,
    ensures
        match cell_index_from(cells, key, i) {
            Some(j) => i <= j < cells.len() && cells[j].key == key,
            None => true,
        },
    decreases cells.len() - i,
{
    if i < cells.len() && cells[i].key != key {
        lemma_cell_index_in_range(cells, key, i + 1);
    }
}

/// The keys shown in a column of a lane are keys of issues of the data.
proof fn lemma_cell_keys_issues(data: BoardData, keys: Seq<Seq<char>>, column: int, search: Seq<char>)
    ensures
        forall|i: int| 0 <= i < cell_keys(data, keys, column, search).len()
            ==> issue_index(data.issues@, #[trigger] cell_keys(data, keys, column, search)[i]) is Some,
    decreases keys.len(),
{
    if keys.len() > 0 {
        lemma_cell_keys_issues(data, keys.drop_last(), column, search);
    }
}

proof fn lemma_lane_entry_selectable(data: BoardData, lane: LaneView, column: int, search: Seq<char>, take_last: bool)
    requires
        0 <= column,
    ensures
        selectable_key(data, lane_column_entry(data, lane, column, search, take_last)),
{
    lemma_cell_keys_issues(data, lane.keys, column, search);
    lemma_empty_key_synthetic(lane.name, column as nat);
    let keys = cell_keys(data, lane.keys, column, search);
    if keys.len() > 0 {
        assert(issue_index(data.issues@, keys[keys.len() - 1]) is Some);
        assert(issue_index(data.issues@, keys[0]) is Some);
    }
}

proof fn lemma_column_cells_selectable(data: BoardData, lane: LaneView, li: nat, column: nat, search: Seq<char>)
    ensures
        forall|i: int| 0 <= i < column_cells(data, lane, li, column, search).len()
            ==> selectable_key(data, (#[trigger] column_cells(data, lane, li, column, search)[i]).key),
{
    lemma_cell_keys_issues(data, lane.keys, column as int, search);
    lemma_empty_key_synthetic(lane.name, column);
    let keys = cell_keys(data, lane.keys, column as int, search);
    let cs = column_cells(data, lane, li, column, search);
    assert forall|i: int| 0 <= i < cs.len() implies selectable_key(data, (#[trigger] cs[i]).key) by {
        if keys.len() > 0 {
            assert(cs[i].key == keys[i]);
        }
    }
}

proof fn lemma_columns_cells_selectable(data: BoardData, lane: LaneView, li: nat, n: int, search: Seq<char>)
    ensures
        forall|i: int| 0 <= i < columns_cells(data, lane, li, n, search).len()
            ==> selectable_key(data, (#[trigger] columns_cells(data, lane, li, n, search)[i]).key),
    decreases n,
{
    if n > 0 {
        lemma_columns_cells_selectable(data, lane, li, n - 1, search);
        lemma_column_cells_selectable(data, lane, li, (n - 1) as nat, search);
        let a = columns_cells(data, lane, li, n - 1, search);
        let b = column_cells(data, lane, li, (n - 1) as nat, search);
        let cs = columns_cells(data, lane, li, n, search);
        assert(cs == a + b);
        assert forall|i: int| 0 <= i < cs.len() implies selectable_key(data, (#[trigger] cs[i]).key) by {
            if i < a.len() {
                assert(cs[i] == a[i]);
            } else {
                assert(cs[i] == b[i - a.len()]);
            }
        }
    }
}

proof fn lemma_lane_cells_selectable(data: BoardData, lane: LaneView, li: nat, search: Seq<char>, collapsed: Set<Seq<char>>, grouped: bool)
    ensures
        forall|i: int| 0 <= i < lane_cells(data, lane, li, search, collapsed, grouped).len()
            ==> selectable_key(data, (#[trigger] lane_cells(data, lane, li, search, collapsed, grouped)[i]).key),
{
    lemma_group_key_synthetic(lane.name);
    let n = data.columns@.len() as int;
    lemma_columns_cells_selectable(data, lane, li, n, search);
    let cols = columns_cells(data, lane, li, n, search);
    let cs = lane_cells(data, lane, li, search, collapsed, grouped);
    let hl: int = if grouped && crate::board::lane_has_match(data, lane.keys, search) { 1 } else { 0 };
    assert forall|i: int| 0 <= i < cs.len() implies selectable_key(data, (#[trigger] cs[i]).key) by {
        if i >= hl {
            assert(cs[i] == cols[i - hl]);
        }
    }
}

/// Every cell the board shows names a lane header, an empty cell or an issue.
proof fn lemma_board_cells_selectable(data: BoardData, lanes: Seq<LaneView>, n: int, search: Seq<char>, collapsed: Set<Seq<char>>, grouped: bool)
    ensures
        forall|i: int| 0 <= i < board_cells(data, lanes, n, search, collapsed, grouped).len()
            ==> selectable_key(data, (#[trigger] board_cells(data, lanes, n, search, collapsed, grouped)[i]).key),
    decreases n,
{
    if n > 0 {
        lemma_board_cells_selectable(data, lanes, n - 1, search, collapsed, grouped);
        lemma_lane_cells_selectable(data, lanes[n - 1], (n - 1) as nat, search, collapsed, grouped);
        let a = board_cells(data, lanes, n - 1, search, collapsed, grouped);
        let b = lane_cells(data, lanes[n - 1], (n - 1) as nat, search, collapsed, grouped);
        let cs = board_cells(data, lanes, n, search, collapsed, grouped);
        assert(cs == a + b);
        assert forall|i: int| 0 <= i < cs.len() implies selectable_key(data, (#[trigger] cs[i]).key) by {
            if i < a.len() {
                assert(cs[i] == a[i]);
            } else {
                assert(cs[i] == b[i - a.len()]);
            }
        }
    }
}

proof fn lemma_position_in_range(keys: Seq<Seq<char>>, key: Seq<char>, i: int)
    requires
        0 <= i,
    ensures
        match position_from(keys, key, i) {
            Some(p) => i <= p < keys.len(),
            None => true,
        },
    decreases keys.len() - i,
{
    if i < keys.len() && keys[i] != key {
        lemma_position_in_range(keys, key, i + 1);
    }
}

proof fn lemma_vertical_selectable(data: BoardData, lanes: Seq<LaneView>, collapsed: Set<Seq<char>>, grouped: bool, sel: CellView, preferred: int, search: Seq<char>, up: bool)
    requires
        0 <= preferred,
    ensures
        match vertical_target(data, lanes, collapsed, grouped, sel, preferred, search, up) {
            Some(k) => selectable_key(data, k),
            None => true,
        },
{
    lemma_group_key_synthetic(sel.group);
    if sel.lane >= 1 {
        let prev = lanes[sel.lane - 1];
        lemma_group_key_synthetic(prev.name);
        lemma_lane_entry_selectable(data, prev, preferred, search, true);
    }
    if sel.lane + 1 < lanes.len() {
        lemma_group_key_synthetic(lanes[sel.lane + 1 as int].name);
    }
    lemma_lane_entry_selectable(data, lanes[sel.lane as int], preferred, search, false);
    let keys = cell_keys(data, lanes[sel.lane as int].keys, sel.column as int, search);
    lemma_cell_keys_issues(data, lanes[sel.lane as int].keys, sel.column as int, search);
    lemma_position_in_range(keys, sel.key, 0);
    match position_from(keys, sel.key, 0) {
        Some(p) => {
            if p >= 1 {
                assert(issue_index(data.issues@, keys[p - 1]) is Some);
            }
            if p + 1 < keys.len() {
                assert(issue_index(data.issues@, keys[p + 1]) is Some);
            }
        },
        None => {},
    }
}

proof fn lemma_page_walk_selectable(data: BoardData, lanes: Seq<LaneView>, cells: Seq<CellView>, collapsed: Set<Seq<char>>, grouped: bool, preferred: int, search: Seq<char>, up: bool, current: Seq<char>, landed: nat, result: Option<Seq<char>>, fuel: nat)
    requires
        0 <= preferred,
        match result {
            Some(k) => selectable_key(data, k),
            None => true,
        },
    ensures
        match page_walk(data, lanes, cells, collapsed, grouped, preferred, search, up, current, landed, result, fuel) {
            Some(k) => selectable_key(data, k),
            None => true,
        },
    decreases fuel,
{
    if fuel > 0 {
        match cell_index(cells, current) {
            None => {},
            Some(ci) => {
                lemma_vertical_selectable(data, lanes, collapsed, grouped, cells[ci], preferred, search, up);
                match vertical_target(data, lanes, collapsed, grouped, cells[ci], preferred, search, up) {
                    None => {},
                    Some(next) => {
                        lemma_page_walk_selectable(data, lanes, cells, collapsed, grouped, preferred, search, up, next, landed, result, (fuel - 1) as nat);
                        lemma_page_walk_selectable(data, lanes, cells, collapsed, grouped, preferred, search, up, next, landed + 1, Some(next), (fuel - 1) as nat);
                    },
                }
            },
        }
    }
}

proof fn lemma_first_in_column_range(cells: Seq<CellView>, column: int, i: int)
    ensures
        match first_in_column(cells, column, i) {
            Some(j) => 0 <= j < cells.len(),
            None => true,
        },
    decreases cells.len() - i,
{
    if 0 <= i < cells.len() {
        lemma_first_in_column_range(cells, column, i + 1);
    }
}

proof fn lemma_last_in_column_range(cells: Seq<CellView>, column: int, n: int)
    ensures
        match last_in_column(cells, column, n) {
            Some(j) => 0 <= j < cells.len(),
            None => true,
        },
    decreases n,
{
    if 0 < n <= cells.len() {
        lemma_last_in_column_range(cells, column, n - 1);
    }
}

/// Where an action moves the selection is a key the board can select.
proof fn lemma_move_selectable(data: BoardData, lanes: Seq<LaneView>, cells: Seq<CellView>, collapsed: Set<Seq<char>>, grouped: bool, sel: CellView, preferred: int, search: Seq<char>, action: BoardAction)
    requires
        0 <= preferred,
        forall|i: int| 0 <= i < cells.len() ==> selectable_key(data, (#[trigger] cells[i]).key),
    ensures
        match board_move(data, lanes, cells, collapsed, grouped, sel, preferred, search, action).1 {
            Some(k) => selectable_key(data, k),
            None => true,
        },
{
    lemma_group_key_synthetic(sel.group);
    lemma_lane_entry_selectable(data, lanes[sel.lane as int], preferred, search, false);
    lemma_vertical_selectable(data, lanes, collapsed, grouped, sel, preferred, search, true);
    lemma_vertical_selectable(data, lanes, collapsed, grouped, sel, preferred, search, false);
    lemma_page_walk_selectable(data, lanes, cells, collapsed, grouped, preferred, search, true, sel.key, 0, None, crate::board::page_fuel(cells));
    lemma_page_walk_selectable(data, lanes, cells, collapsed, grouped, preferred, search, false, sel.key, 0, None, crate::board::page_fuel(cells));
    lemma_first_in_column_range(cells, preferred, 0);
    lemma_last_in_column_range(cells, preferred, cells.len() as int);
    lemma_cell_keys_issues(data, lanes[sel.lane as int].keys, sel.column as int + 1, search);
    lemma_cell_keys_issues(data, lanes[sel.lane as int].keys, sel.column as int - 1, search);
    if sel.column + 1 >= 0 {
        lemma_empty_key_synthetic(lanes[sel.lane as int].name, (sel.column + 1) as nat);
    }
    if sel.column - 1 >= 0 {
        lemma_empty_key_synthetic(lanes[sel.lane as int].name, (sel.column - 1) as nat);
    }
    match first_in_column(cells, preferred, 0) {
        Some(j) => assert(selectable_key(data, cells[j].key)),
        None => {},
    }
    match last_in_column(cells, preferred, cells.len() as int) {
        Some(j) => assert(selectable_key(data, cells[j].key)),
        None => {},
    }
}

/// A navigation step keeps the selection on a lane header, an empty cell or
/// an issue of the board's data.
pub proof fn lemma_step_keeps_selection(v: BoardView, action: BoardAction, search: Seq<char>, grouping: BoardGrouping)
    requires
        selection_names_issue(v),
    ensures
        selection_names_issue(board_step(v, action, search, grouping)),
{
    match v.data {
        None => {},
        Some(data) => {
            let grouped = grouping != BoardGrouping::Ungrouped;
            let lanes = board_lanes(data, grouping);
            let cells = board_cells(data, lanes, lanes.len() as int, search, v.collapsed, grouped);
            lemma_board_cells_selectable(data, lanes, lanes.len() as int, search, v.collapsed, grouped);
            if cells.len() > 0 {
                assert(selectable_key(data, cells[0].key));
                match v.selected {
                    None => {},
                    Some(key) => {
                        lemma_cell_index_in_range(cells, key, 0);
                        match cell_index(cells, key) {
                            None => {},
                            Some(si) => {
                                let sel = cells[si];
                                let keep = if sel.is_group { v.preferred_column } else { sel.column };
                                let ncols = data.columns@.len();
                                let last_col: nat = if ncols == 0 { 0 } else { (ncols - 1) as nat };
                                let pc = if keep < last_col { keep } else { last_col };
                                lemma_move_selectable(data, lanes, cells, v.collapsed, grouped, sel, pc as int, search, action);
                            },
                        }
                    },
                }
            }
        },
    }
}

/// Showing new data leaves the selection on a lane header, an empty cell or
/// an issue of the new data, whatever was selected before.
pub proof fn lemma_set_data_selection(v: BoardView, data: BoardData)
    ensures
        selection_names_issue(set_data_spec(v, data)),
{
    let lanes = crate::board::lane_views(data.swimlanes@);
    let cells = board_cells(data, lanes, lanes.len() as int, Seq::empty(), v.collapsed, false);
    lemma_board_cells_selectable(data, lanes, lanes.len() as int, Seq::empty(), v.collapsed, false);
    if cells.len() > 0 {
        assert(selectable_key(data, cells[0].key));
    }
    match v.selected {
        Some(key) => {
            lemma_cell_index_in_range(cells, key, 0);
            match cell_index(cells, key) {
                Some(j) => assert(selectable_key(data, cells[j].key)),
                None => {},
            }
        },
        None => {},
    }
}

/// Selecting the first shown cell selects a lane header, an empty cell or an
/// issue of the board's data.
pub proof fn lemma_select_first_selection(v: BoardView, search: Seq<char>, grouping: BoardGrouping)
    ensures
        selection_names_issue(select_first_spec(v, search, grouping)),
{
    match v.data {
        None => {},
        Some(data) => {
            let lanes = board_lanes(data, grouping);
            let grouped = grouping != BoardGrouping::Ungrouped;
            let cells = board_cells(data, lanes, lanes.len() as int, search, v.collapsed, grouped);
            lemma_board_cells_selectable(data, lanes, lanes.len() as int, search, v.collapsed, grouped);
            if cells.len() > 0 {
                assert(selectable_key(data, cells[0].key));
            }
        },
    }
}

proof fn lemma_issue_index_same_keys(a: Seq<IssueSummary>, b: Seq<IssueSummary>, key: Seq<char>, i: int)
    requires
        a.len() == b.len(),
        forall|j: int| 0 <= j < a.len() ==> (#[trigger] a[j]).key@ == b[j].key@,
    ensures
        issue_index_from(a, key, i) == issue_index_from(b, key, i),
    decreases a.len() - i,
{
    if 0 <= i < a.len() {
        lemma_issue_index_same_keys(a, b, key, i + 1);
    }
}

/// Setting an assignee keeps every issue key, so the selection still names
/// an issue of the data.
pub proof fn lemma_update_assignee_selection(v: BoardView, before: BoardData, after: BoardData, key: Seq<char>, name: Option<Seq<char>>)
    requires
        selection_names_issue(v),
        v.data == Some(before),
        assignee_updated(before, after, key, name),
    ensures
        selection_names_issue(BoardView { data: Some(after), ..v }),
{
    assert forall|j: int| 0 <= j < after.issues@.len() implies (#[trigger] after.issues@[j]).key@ == before.issues@[j].key@ by {
        if issue_index(before.issues@, key) != Some(j) {
            assert(after.issues@[j] == before.issues@[j]);
        }
    }
    match v.selected {
        Some(k) => lemma_issue_index_same_keys(after.issues@, before.issues@, k, 0),
        None => {},
    }
}

proof fn lemma_issue_index_finds(issues: Seq<IssueSummary>, key: Seq<char>, i: int)
    requires
        0 <= i,
    ensures
        match issue_index_from(issues, key, i) {
            Some(j) => i <= j < issues.len() && issues[j].key@ == key,
            None => true,
        },
    decreases issues.len() - i,
{
    if i < issues.len() && issues[i].key@ != key {
        lemma_issue_index_finds(issues, key, i + 1);
    }
}

/// A selected key that names no lane header and no empty cell is the key of
/// an issue of the board's data.
pub proof fn lemma_selected_issue_in_data(v: BoardView, key: Seq<char>)
    requires
        selection_names_issue(v),
        v.selected == Some(key),
        !has_prefix(key, "__board_group__:"@),
        !has_prefix(key, "__board_empty__:"@),
    ensures
        v.data is Some,
        exists|j: int| 0 <= j < v.data->0.issues@.len() && (#[trigger] v.data->0.issues@[j]).key@ == key,
{
    let data = v.data->0;
    lemma_issue_index_finds(data.issues@, key, 0);
    let j = issue_index(data.issues@, key)->0;
    assert(data.issues@[j].key@ == key);
}


/// Whether some cell among `cells` has `key`.
pub open spec fn shows_key(cells: Seq<CellView>, key: Seq<char>) -> bool {
    exists|i: int| 0 <= i < cells.len() && (#[trigger] cells[i]).key == key
}

/// The cells the board shows under a search and a grouping.
pub open spec fn shown_cells(v: BoardView, search: Seq<char>, grouping: BoardGrouping) -> Seq<CellView> {
    match v.data {
        None => Seq::empty(),
        Some(data) => {
            let lanes = board_lanes(data, grouping);
            board_cells(data, lanes, lanes.len() as int, search, v.collapsed, grouping != BoardGrouping::Ungrouped)
        },
    }
}

/// The selection is on a cell the board shows, and empty only when the
/// board shows no cell.
pub open spec fn selection_shown(v: BoardView, search: Seq<char>, grouping: BoardGrouping) -> bool {
    match v.selected {
        None => shown_cells(v, search, grouping).len() == 0,
        Some(key) => shows_key(shown_cells(v, search, grouping), key),
    }
}

/// Where a cell of the board comes from: the header of its lane, or a card
/// or the empty cell of a column of its lane when the lane is open.
spec fn cell_shape(data: BoardData, lanes: Seq<LaneView>, search: Seq<char>, collapsed: Set<Seq<char>>, grouped: bool, x: CellView) -> bool {
    &&& x.lane < lanes.len()
    &&& x.group == lanes[x.lane as int].name
    &&& if x.is_group {
        grouped && crate::board::lane_has_match(data, lanes[x.lane as int].keys, search) && x.key == group_key_spec(x.group)
    } else {
        let keys = cell_keys(data, lanes[x.lane as int].keys, x.column as int, search);
        &&& !(grouped && collapsed.contains(x.group))
        &&& x.column < data.columns@.len()
        &&& if keys.len() == 0 {
            x.key == empty_key_spec(x.group, x.column)
        } else {
            x.index < keys.len() && x.key == keys[x.index as int]
        }
    }
}

/// Every lane has an issue that passes the search.
spec fn lanes_match(data: BoardData, lanes: Seq<LaneView>, search: Seq<char>) -> bool {
    forall|li: int| 0 <= li < lanes.len() ==> crate::board::lane_has_match(data, (#[trigger] lanes[li]).keys, search)
}

proof fn lemma_shows_concat(a: Seq<CellView>, b: Seq<CellView>, key: Seq<char>)
    ensures
        shows_key(a, key) || shows_key(b, key) ==> shows_key(a + b, key),
{
    if shows_key(a, key) {
        let i = choose|i: int| 0 <= i < a.len() && (#[trigger] a[i]).key == key;
        assert((a + b)[i] == a[i]);
    } else if shows_key(b, key) {
        let i = choose|i: int| 0 <= i < b.len() && (#[trigger] b[i]).key == key;
        assert((a + b)[a.len() + i] == b[i]);
    }
}

proof fn lemma_columns_shows(data: BoardData, lane: LaneView, li: nat, n: int, column: int, search: Seq<char>, key: Seq<char>)
    requires
        0 <= column < n,
        shows_key(column_cells(data, lane, li, column as nat, search), key),
    ensures
        shows_key(columns_cells(data, lane, li, n, search), key),
    decreases n,
{
    let a = columns_cells(data, lane, li, n - 1, search);
    let b = column_cells(data, lane, li, (n - 1) as nat, search);
    if column < n - 1 {
        lemma_columns_shows(data, lane, li, n - 1, column, search, key);
    }
    lemma_shows_concat(a, b, key);
}

proof fn lemma_board_shows(data: BoardData, lanes: Seq<LaneView>, n: int, li: int, search: Seq<char>, collapsed: Set<Seq<char>>, grouped: bool, key: Seq<char>)
    requires
        0 <= li < n,
        shows_key(lane_cells(data, lanes[li], li as nat, search, collapsed, grouped), key),
    ensures
        shows_key(board_cells(data, lanes, n, search, collapsed, grouped), key),
    decreases n,
{
    let a = board_cells(data, lanes, n - 1, search, collapsed, grouped);
    let b = lane_cells(data, lanes[n - 1], (n - 1) as nat, search, collapsed, grouped);
    if li < n - 1 {
        lemma_board_shows(data, lanes, n - 1, li, search, collapsed, grouped, key);
    }
    lemma_shows_concat(a, b, key);
}

/// A lane with an issue that passes the search shows its header, collapsed
/// or not.
proof fn lemma_header_shown(data: BoardData, lanes: Seq<LaneView>, li: int, search: Seq<char>, collapsed: Set<Seq<char>>)
    requires
        0 <= li < lanes.len(),
        crate::board::lane_has_match(data, lanes[li].keys, search),
    ensures
        shows_key(board_cells(data, lanes, lanes.len() as int, search, collapsed, true), group_key_spec(lanes[li].name)),
{
    let lc = lane_cells(data, lanes[li], li as nat, search, collapsed, true);
    assert(lc[0].key == group_key_spec(lanes[li].name));
    lemma_board_shows(data, lanes, lanes.len() as int, li, search, collapsed, true, group_key_spec(lanes[li].name));
}

/// A card of an open lane, or the empty cell of a column without cards, is shown.
proof fn lemma_column_key_shown(data: BoardData, lanes: Seq<LaneView>, li: int, column: int, search: Seq<char>, collapsed: Set<Seq<char>>, grouped: bool, idx: int)
    requires
        0 <= li < lanes.len(),
        0 <= column < data.columns@.len(),
        !(grouped && collapsed.contains(lanes[li].name)),
        cell_keys(data, lanes[li].keys, column, search).len() == 0 || 0 <= idx < cell_keys(data, lanes[li].keys, column, search).len(),
    ensures
        shows_key(board_cells(data, lanes, lanes.len() as int, search, collapsed, grouped),
            if cell_keys(data, lanes[li].keys, column, search).len() == 0 {
                empty_key_spec(lanes[li].name, column as nat)
            } else {
                cell_keys(data, lanes[li].keys, column, search)[idx]
            }),
{
    let lane = lanes[li];
    let keys = cell_keys(data, lane.keys, column, search);
    let key = if keys.len() == 0 { empty_key_spec(lane.name, column as nat) } else { keys[idx] };
    let cc = column_cells(data, lane, li as nat, column as nat, search);
    if keys.len() == 0 {
        assert(cc[0].key == key);
    } else {
        assert(cc[idx].key == key);
    }
    let n = data.columns@.len() as int;
    lemma_columns_shows(data, lane, li as nat, n, column, search, key);
    let header = if grouped && crate::board::lane_has_match(data, lane.keys, search) {
        seq![CellView { lane: li as nat, column: 0, index: 0, key: group_key_spec(lane.name), group: lane.name, is_group: true }]
    } else {
        Seq::empty()
    };
    lemma_shows_concat(header, columns_cells(data, lane, li as nat, n, search), key);
    lemma_board_shows(data, lanes, lanes.len() as int, li, search, collapsed, grouped, key);
}

proof fn lemma_entry_shown(data: BoardData, lanes: Seq<LaneView>, li: int, column: int, search: Seq<char>, collapsed: Set<Seq<char>>, grouped: bool, take_last: bool)
    requires
        0 <= li < lanes.len(),
        0 <= column < data.columns@.len(),
        !(grouped && collapsed.contains(lanes[li].name)),
    ensures
        shows_key(board_cells(data, lanes, lanes.len() as int, search, collapsed, grouped), lane_column_entry(data, lanes[li], column, search, take_last)),
{
    let keys = cell_keys(data, lanes[li].keys, column, search);
    let idx: int = if keys.len() == 0 { 0 } else if take_last { keys.len() - 1 } else { 0 };
    lemma_column_key_shown(data, lanes, li, column, search, collapsed, grouped, idx);
}

proof fn lemma_column_cells_shape(data: BoardData, lanes: Seq<LaneView>, li: int, column: nat, search: Seq<char>, collapsed: Set<Seq<char>>, grouped: bool)
    requires
        0 <= li < lanes.len(),
        column < data.columns@.len(),
        !(grouped && collapsed.contains(lanes[li].name)),
    ensures
        forall|i: int| 0 <= i < column_cells(data, lanes[li], li as nat, column, search).len()
            ==> cell_shape(data, lanes, search, collapsed, grouped, #[trigger] column_cells(data, lanes[li], li as nat, column, search)[i]),
{
}

proof fn lemma_columns_cells_shape(data: BoardData, lanes: Seq<LaneView>, li: int, n: int, search: Seq<char>, collapsed: Set<Seq<char>>, grouped: bool)
    requires
        0 <= li < lanes.len(),
        n <= data.columns@.len(),
        !(grouped && collapsed.contains(lanes[li].name)),
    ensures
        forall|i: int| 0 <= i < columns_cells(data, lanes[li], li as nat, n, search).len()
            ==> cell_shape(data, lanes, search, collapsed, grouped, #[trigger] columns_cells(data, lanes[li], li as nat, n, search)[i]),
    decreases n,
{
    if n > 0 {
        lemma_columns_cells_shape(data, lanes, li, n - 1, search, collapsed, grouped);
        lemma_column_cells_shape(data, lanes, li, (n - 1) as nat, search, collapsed, grouped);
        let a = columns_cells(data, lanes[li], li as nat, n - 1, search);
        let b = column_cells(data, lanes[li], li as nat, (n - 1) as nat, search);
        let cs = columns_cells(data, lanes[li], li as nat, n, search);
        assert(cs == a + b);
        assert forall|i: int| 0 <= i < cs.len() implies cell_shape(data, lanes, search, collapsed, grouped, #[trigger] cs[i]) by {
            if i < a.len() {
                assert(cs[i] == a[i]);
            } else {
                assert(cs[i] == b[i - a.len()]);
            }
        }
    }
}

proof fn lemma_lane_cells_shape(data: BoardData, lanes: Seq<LaneView>, li: int, search: Seq<char>, collapsed: Set<Seq<char>>, grouped: bool)
    requires
        0 <= li < lanes.len(),
    ensures
        forall|i: int| 0 <= i < lane_cells(data, lanes[li], li as nat, search, collapsed, grouped).len()
            ==> cell_shape(data, lanes, search, collapsed, grouped, #[trigger] lane_cells(data, lanes[li], li as nat, search, collapsed, grouped)[i]),
{
    let lane = lanes[li];
    let n = data.columns@.len() as int;
    let cs = lane_cells(data, lane, li as nat, search, collapsed, grouped);
    let hl: int = if grouped && crate::board::lane_has_match(data, lane.keys, search) { 1 } else { 0 };
    if !(grouped && collapsed.contains(lane.name)) {
        lemma_columns_cells_shape(data, lanes, li, n, search, collapsed, grouped);
    }
    let cols = columns_cells(data, lane, li as nat, n, search);
    assert forall|i: int| 0 <= i < cs.len() implies cell_shape(data, lanes, search, collapsed, grouped, #[trigger] cs[i]) by {
        if i >= hl {
            assert(cs[i] == cols[i - hl]);
        }
    }
}

/// Every cell of the board is a lane header, or a card or empty cell of an
/// open lane.
proof fn lemma_board_cells_shape(data: BoardData, lanes: Seq<LaneView>, n: int, search: Seq<char>, collapsed: Set<Seq<char>>, grouped: bool)
    requires
        n <= lanes.len(),
    ensures
        forall|i: int| 0 <= i < board_cells(data, lanes, n, search, collapsed, grouped).len()
            ==> cell_shape(data, lanes, search, collapsed, grouped, #[trigger] board_cells(data, lanes, n, search, collapsed, grouped)[i]),
    decreases n,
{
    if n > 0 {
        lemma_board_cells_shape(data, lanes, n - 1, search, collapsed, grouped);
        lemma_lane_cells_shape(data, lanes, n - 1, search, collapsed, grouped);
        let a = board_cells(data, lanes, n - 1, search, collapsed, grouped);
        let b = lane_cells(data, lanes[n - 1], (n - 1) as nat, search, collapsed, grouped);
        let cs = board_cells(data, lanes, n, search, collapsed, grouped);
        assert(cs == a + b);
        assert forall|i: int| 0 <= i < cs.len() implies cell_shape(data, lanes, search, collapsed, grouped, #[trigger] cs[i]) by {
            if i < a.len() {
                assert(cs[i] == a[i]);
            } else {
                assert(cs[i] == b[i - a.len()]);
            }
        }
    }
}

/// A header stays shown whatever is collapsed; a card or empty cell stays
/// shown while its lane is open.
proof fn lemma_cell_reshown(data: BoardData, lanes: Seq<LaneView>, search: Seq<char>, before: Set<Seq<char>>, after: Set<Seq<char>>, grouped: bool, x: CellView)
    requires
        cell_shape(data, lanes, search, before, grouped, x),
        !x.is_group ==> !(grouped && after.contains(x.group)),
    ensures
        shows_key(board_cells(data, lanes, lanes.len() as int, search, after, grouped), x.key),
{
    if x.is_group {
        lemma_header_shown(data, lanes, x.lane as int, search, after);
    } else {
        lemma_column_key_shown(data, lanes, x.lane as int, x.column as int, search, after, grouped, x.index as int);
    }
}

/// A step up or down from a shown cell lands on a shown cell.
proof fn lemma_vertical_shown(data: BoardData, lanes: Seq<LaneView>, collapsed: Set<Seq<char>>, grouped: bool, sel: CellView, preferred: int, search: Seq<char>, up: bool)
    requires
        cell_shape(data, lanes, search, collapsed, grouped, sel),
        grouped ==> lanes_match(data, lanes, search),
        0 <= preferred < data.columns@.len(),
    ensures
        match vertical_target(data, lanes, collapsed, grouped, sel, preferred, search, up) {
            Some(k) => shows_key(board_cells(data, lanes, lanes.len() as int, search, collapsed, grouped), k),
            None => true,
        },
{
    let li = sel.lane as int;
    if sel.is_group {
        if up {
            if sel.lane > 0 {
                let prev = lanes[li - 1];
                if grouped && collapsed.contains(prev.name) {
                    assert(crate::board::lane_has_match(data, lanes[li - 1].keys, search));
                    lemma_header_shown(data, lanes, li - 1, search, collapsed);
                } else {
                    lemma_entry_shown(data, lanes, li - 1, preferred, search, collapsed, grouped, true);
                }
            }
        } else {
            if grouped && collapsed.contains(sel.group) {
                if sel.lane + 1 < lanes.len() {
                    assert(crate::board::lane_has_match(data, lanes[li + 1].keys, search));
                    lemma_header_shown(data, lanes, li + 1, search, collapsed);
                }
            } else {
                lemma_entry_shown(data, lanes, li, preferred, search, collapsed, grouped, false);
            }
        }
    } else {
        let keys = cell_keys(data, lanes[li].keys, sel.column as int, search);
        lemma_position_in_range(keys, sel.key, 0);
        match position_from(keys, sel.key, 0) {
            Some(p) => {
                if up && p >= 1 {
                    lemma_column_key_shown(data, lanes, li, sel.column as int, search, collapsed, grouped, p - 1);
                }
                if !up && p + 1 < keys.len() {
                    lemma_column_key_shown(data, lanes, li, sel.column as int, search, collapsed, grouped, p + 1);
                }
            },
            None => {},
        }
        if grouped {
            assert(crate::board::lane_has_match(data, lanes[li].keys, search));
            lemma_header_shown(data, lanes, li, search, collapsed);
            if li + 1 < lanes.len() {
                assert(crate::board::lane_has_match(data, lanes[li + 1].keys, search));
                lemma_header_shown(data, lanes, li + 1, search, collapsed);
            }
        }
    }
}

proof fn lemma_page_walk_shown(data: BoardData, lanes: Seq<LaneView>, collapsed: Set<Seq<char>>, grouped: bool, preferred: int, search: Seq<char>, up: bool, current: Seq<char>, landed: nat, result: Option<Seq<char>>, fuel: nat)
    requires
        grouped ==> lanes_match(data, lanes, search),
        0 <= preferred < data.columns@.len(),
        match result {
            Some(k) => shows_key(board_cells(data, lanes, lanes.len() as int, search, collapsed, grouped), k),
            None => true,
        },
    ensures
        match page_walk(data, lanes, board_cells(data, lanes, lanes.len() as int, search, collapsed, grouped), collapsed, grouped, preferred, search, up, current, landed, result, fuel) {
            Some(k) => shows_key(board_cells(data, lanes, lanes.len() as int, search, collapsed, grouped), k),
            None => true,
        },
    decreases fuel,
{
    let cells = board_cells(data, lanes, lanes.len() as int, search, collapsed, grouped);
    if fuel > 0 {
        lemma_cell_index_in_range(cells, current, 0);
        match cell_index(cells, current) {
            None => {},
            Some(ci) => {
                lemma_board_cells_shape(data, lanes, lanes.len() as int, search, collapsed, grouped);
                assert(cell_shape(data, lanes, search, collapsed, grouped, cells[ci]));
                lemma_vertical_shown(data, lanes, collapsed, grouped, cells[ci], preferred, search, up);
                match vertical_target(data, lanes, collapsed, grouped, cells[ci], preferred, search, up) {
                    None => {},
                    Some(next) => {
                        lemma_page_walk_shown(data, lanes, collapsed, grouped, preferred, search, up, next, landed, result, (fuel - 1) as nat);
                        lemma_page_walk_shown(data, lanes, collapsed, grouped, preferred, search, up, next, landed + 1, Some(next), (fuel - 1) as nat);
                    },
                }
            },
        }
    }
}

/// A step left or right from a shown card or empty cell lands on a shown cell.
proof fn lemma_horizontal_shown(data: BoardData, lanes: Seq<LaneView>, collapsed: Set<Seq<char>>, grouped: bool, sel: CellView, dir: int, search: Seq<char>)
    requires
        cell_shape(data, lanes, search, collapsed, grouped, sel),
        !sel.is_group,
    ensures
        match horizontal_target(data, lanes, sel, dir, search) {
            Some(k) => shows_key(board_cells(data, lanes, lanes.len() as int, search, collapsed, grouped), k),
            None => true,
        },
{
    let column = sel.column + dir;
    if 0 <= column < data.columns@.len() {
        let keys = cell_keys(data, lanes[sel.lane as int].keys, column, search);
        let idx: int = if keys.len() == 0 { 0 } else if sel.index < keys.len() - 1 { sel.index as int } else { keys.len() - 1 };
        lemma_column_key_shown(data, lanes, sel.lane as int, column, search, collapsed, grouped, idx);
    }
}

/// Where an action leaves the selection, from a shown cell, is a shown cell
/// of the board as the action leaves it.
proof fn lemma_move_shown(data: BoardData, lanes: Seq<LaneView>, collapsed: Set<Seq<char>>, grouped: bool, sel: CellView, preferred: int, search: Seq<char>, action: BoardAction)
    requires
        cell_shape(data, lanes, search, collapsed, grouped, sel),
        grouped ==> lanes_match(data, lanes, search),
        0 <= preferred < data.columns@.len(),
        !(action == BoardAction::CollapseAllGroups && !grouped),
    ensures
        ({
            let cells = board_cells(data, lanes, lanes.len() as int, search, collapsed, grouped);
            let (after, next) = board_move(data, lanes, cells, collapsed, grouped, sel, preferred, search, action);
            shows_key(board_cells(data, lanes, lanes.len() as int, search, after, grouped), match next {
                Some(k) => k,
                None => sel.key,
            })
        }),
{
    let cells = board_cells(data, lanes, lanes.len() as int, search, collapsed, grouped);
    let li = sel.lane as int;
    let (after, next) = board_move(data, lanes, cells, collapsed, grouped, sel, preferred, search, action);
    lemma_board_cells_shape(data, lanes, lanes.len() as int, search, collapsed, grouped);
    match action {
        BoardAction::MoveLeft => {
            if sel.is_group {
                lemma_cell_reshown(data, lanes, search, collapsed, after, grouped, sel);
            } else {
                lemma_horizontal_shown(data, lanes, collapsed, grouped, sel, -1, search);
                lemma_cell_reshown(data, lanes, search, collapsed, after, grouped, sel);
                if grouped {
                    assert(crate::board::lane_has_match(data, lanes[li].keys, search));
                    lemma_header_shown(data, lanes, li, search, collapsed);
                }
            }
        },
        BoardAction::MoveRight => {
            if sel.is_group {
                lemma_entry_shown(data, lanes, li, preferred, search, after, grouped, false);
            } else {
                lemma_horizontal_shown(data, lanes, collapsed, grouped, sel, 1, search);
                lemma_cell_reshown(data, lanes, search, collapsed, after, grouped, sel);
            }
        },
        BoardAction::MoveUp | BoardAction::MoveDown => {
            lemma_vertical_shown(data, lanes, collapsed, grouped, sel, preferred, search, action == BoardAction::MoveUp);
            lemma_cell_reshown(data, lanes, search, collapsed, after, grouped, sel);
        },
        BoardAction::HalfPageUp | BoardAction::HalfPageDown => {
            lemma_page_walk_shown(data, lanes, collapsed, grouped, preferred, search, action == BoardAction::HalfPageUp, sel.key, 0, None, crate::board::page_fuel(cells));
            lemma_cell_reshown(data, lanes, search, collapsed, after, grouped, sel);
        },
        BoardAction::GoToStart => {
            lemma_first_in_column_range(cells, preferred, 0);
            match first_in_column(cells, preferred, 0) {
                Some(j) => assert(cells[j].key == key_at(cells, Some(j))->0),
                None => lemma_cell_reshown(data, lanes, search, collapsed, after, grouped, sel),
            }
        },
        BoardAction::GoToEnd => {
            lemma_last_in_column_range(cells, preferred, cells.len() as int);
            match last_in_column(cells, preferred, cells.len() as int) {
                Some(j) => assert(cells[j].key == key_at(cells, Some(j))->0),
                None => lemma_cell_reshown(data, lanes, search, collapsed, after, grouped, sel),
            }
        },
        BoardAction::CollapseAllGroups => {
            assert(crate::board::lane_has_match(data, lanes[li].keys, search));
            lemma_header_shown(data, lanes, li, search, after);
        },
        _ => {
            lemma_cell_reshown(data, lanes, search, collapsed, after, grouped, sel);
        },
    }
}

proof fn lemma_issue_index_some(issues: Seq<IssueSummary>, key: Seq<char>, j: int, i: int)
    requires
        0 <= i <= j < issues.len(),
        issues[j].key@ == key,
    ensures
        issue_index_from(issues, key, i) is Some,
    decreases j - i,
{
    if issues[i].key@ != key {
        lemma_issue_index_some(issues, key, j, i + 1);
    }
}

proof fn lemma_keys_in_lane_holds(grouping: BoardGrouping, issues: Seq<IssueSummary>, name: Seq<char>, j: int)
    requires
        0 <= j < issues.len(),
        crate::board::lane_name_of(grouping, issues[j]) == name,
    ensures
        exists|k: int| 0 <= k < crate::board::keys_in_lane(grouping, issues, name).len()
            && (#[trigger] crate::board::keys_in_lane(grouping, issues, name)[k]) == issues[j].key@,
    decreases issues.len(),
{
    let all = crate::board::keys_in_lane(grouping, issues, name);
    let before = crate::board::keys_in_lane(grouping, issues.drop_last(), name);
    if j == issues.len() - 1 {
        assert(all[before.len() as int] == issues[j].key@);
    } else {
        assert(issues.drop_last()[j] == issues[j]);
        lemma_keys_in_lane_holds(grouping, issues.drop_last(), name, j);
        let k = choose|k: int| 0 <= k < before.len() && (#[trigger] before[k]) == issues[j].key@;
        assert(all[k] == before[k]);
    }
}

/// Under a grouping, with no search, every lane of the board has an issue
/// that shows.
proof fn lemma_grouped_lanes_match(data: BoardData, grouping: BoardGrouping)
    requires
        grouping != BoardGrouping::Ungrouped,
    ensures
        lanes_match(data, board_lanes(data, grouping), Seq::empty()),
{
    crate::board::lemma_grouped_lanes_exist(data, grouping);
    let lanes = board_lanes(data, grouping);
    assert(crate::board::grouped_lanes_ok(data, grouping, lanes));
    let issues = data.issues@;
    assert forall|li: int| 0 <= li < lanes.len() implies crate::board::lane_has_match(data, (#[trigger] lanes[li]).keys, Seq::empty()) by {
        let name = lanes[li].name;
        assert(crate::board::has_lane_named(lanes, name));
        assert(crate::board::some_issue_in_lane(grouping, issues, name));
        let j = choose|j: int| 0 <= j < issues.len() && crate::board::lane_name_of(grouping, #[trigger] issues[j]) == name;
        lemma_keys_in_lane_holds(grouping, issues, name, j);
        let keys = lanes[li].keys;
        let k = choose|k: int| 0 <= k < keys.len() && (#[trigger] keys[k]) == issues[j].key@;
        lemma_issue_index_some(issues, issues[j].key@, j, 0);
        assert(crate::board::key_matches(data, keys[k], Seq::empty()));
    }
}

/// After a navigation step with no search on a board with data and at least
/// one column, the data and error are unchanged, both axes follow the
/// selection again, and the selection is on a cell the board shows; it is
/// empty only when the board shows no cell. (Collapsing all lanes of an
/// ungrouped board selects a lane header that is not shown.)
pub proof fn lemma_step_selects_shown_cell(v: BoardView, action: BoardAction, grouping: BoardGrouping)
    requires
        v.data is Some,
        v.data->0.columns@.len() > 0,
        !(action == BoardAction::CollapseAllGroups && grouping == BoardGrouping::Ungrouped),
    ensures
        board_step(v, action, Seq::empty(), grouping).data == v.data,
        board_step(v, action, Seq::empty(), grouping).error == v.error,
        !board_step(v, action, Seq::empty(), grouping).manual_v_scroll,
        !board_step(v, action, Seq::empty(), grouping).manual_h_scroll,
        selection_shown(board_step(v, action, Seq::empty(), grouping), Seq::empty(), grouping),
{
    let search = Seq::<char>::empty();
    let data = v.data->0;
    let grouped = grouping != BoardGrouping::Ungrouped;
    let lanes = board_lanes(data, grouping);
    let cells = board_cells(data, lanes, lanes.len() as int, search, v.collapsed, grouped);
    let w = board_step(v, action, search, grouping);
    if grouped {
        lemma_grouped_lanes_match(data, grouping);
    }
    if cells.len() > 0 {
        match v.selected {
            Some(key) => {
                lemma_cell_index_in_range(cells, key, 0);
                match cell_index(cells, key) {
                    Some(si) => {
                        let sel = cells[si];
                        lemma_board_cells_shape(data, lanes, lanes.len() as int, search, v.collapsed, grouped);
                        assert(cell_shape(data, lanes, search, v.collapsed, grouped, sel));
                        let keep = if sel.is_group { v.preferred_column } else { sel.column };
                        let ncols = data.columns@.len();
                        let last_col: nat = (ncols - 1) as nat;
                        let pc = if keep < last_col { keep } else { last_col };
                        lemma_move_shown(data, lanes, v.collapsed, grouped, sel, pc as int, search, action);
                    },
                    None => {
                        assert(cells[0].key == cells[0].key);
                    },
                }
            },
            None => {
                assert(cells[0].key == cells[0].key);
            },
        }
    }
}

/// A left or right step from a selected card or empty cell keeps its height:
/// it selects, in the same lane and the neighbouring column, the card whose
/// position in that column is the selected cell's position, or the column's
/// last card when the column is shorter, or the column's empty cell when it
/// has no card.
pub proof fn lemma_side_step_keeps_height(v: BoardView, search: Seq<char>, grouping: BoardGrouping, right: bool, si: int)
    requires
        v.data is Some,
        v.selected is Some,
        ({
            let data = v.data->0;
            let lanes = board_lanes(data, grouping);
            let cells = board_cells(data, lanes, lanes.len() as int, search, v.collapsed, grouping != BoardGrouping::Ungrouped);
            let column = cells[si].column + if right { 1int } else { -1int };
            &&& cell_index(cells, v.selected->0) == Some(si)
            &&& !cells[si].is_group
            &&& 0 <= column < data.columns@.len()
        }),
    ensures
        ({
            let data = v.data->0;
            let lanes = board_lanes(data, grouping);
            let cells = board_cells(data, lanes, lanes.len() as int, search, v.collapsed, grouping != BoardGrouping::Ungrouped);
            let sel = cells[si];
            let column = sel.column + if right { 1int } else { -1int };
            let lane = lanes[sel.lane as int];
            let keys = cell_keys(data, lane.keys, column, search);
            let action = if right { BoardAction::MoveRight } else { BoardAction::MoveLeft };
            board_step(v, action, search, grouping).selected == Some(
                if keys.len() == 0 {
                    empty_key_spec(lane.name, column as nat)
                } else if sel.index < keys.len() {
                    keys[sel.index as int]
                } else {
                    keys[keys.len() - 1]
                },
            )
        }),
{
    let data = v.data->0;
    let lanes = board_lanes(data, grouping);
    let cells = board_cells(data, lanes, lanes.len() as int, search, v.collapsed, grouping != BoardGrouping::Ungrouped);
    lemma_cell_index_in_range(cells, v.selected->0, 0);
    assert(cells.len() > 0);
}

} // verus!
