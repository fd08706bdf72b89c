//! The entries of the keyboard help dialog, written with the configured
//! bindings.
use vstd::prelude::*;
use vstd::string::StringExecFns;
use crate::app_tab::Screen;
use crate::help::{HelpContext, HelpItem, HelpItemView, HelpScope, help_item_views};
use crate::keymap::{KeyBindings, resolve, resolved};
use crate::keymap_hints::{
    chain, close_label_of, collapse_all_label_of, join_labels, labels_joined, leader_shortcut,
};
use crate::keys::{KeySpec, key_label};
use crate::text::{char_lowercase, str_eq, to_lowercase, push_char};

verus! {

pub open spec fn hv(scope: HelpScope, binding: Seq<char>, summary: Seq<char>, description: Seq<
    char,
>) -> HelpItemView {
    HelpItemView { scope, binding, summary, description }
}

/// A one-character label written twice in lower case (a key pressed twice),
/// any other label written twice with a space between.
pub open spec fn doubled(label: Seq<char>) -> Seq<char> {
    if label.len() == 1 {
        char_lowercase(label[0]) + char_lowercase(label[0])
    } else {
        label + " "@ + label
    }
}

/// The label of the first binding pressed twice, or nothing without one.
pub open spec fn prefix_label(prefix: Seq<KeySpec>) -> Seq<char> {
    if prefix.len() > 0 {
        doubled(key_label(prefix[0]))
    } else {
        Seq::empty()
    }
}

fn doubled_label(label: &str) -> (r: String)
    ensures
        r@ == doubled(label@),
{
    if label.unicode_len() == 1 {
        let lower = to_lowercase(label.get_char(0));
        let mut out = String::new();
        let mut round: usize = 0;
        while round < 2
            invariant
                round <= 2,
                lower@ == char_lowercase(label@[0]),
                out@ == if round == 0 {
                    Seq::<char>::empty()
                } else if round == 1 {
                    lower@
                } else {
                    lower@ + lower@
                },
            decreases 2 - round,
        {
            let ghost before = out@;
            let mut i: usize = 0;
            while i < lower.len()
                invariant
                    i <= lower@.len(),
                    out@ == before + lower@.take(i as int),
                decreases lower@.len() - i,
            {
                push_char(&mut out, lower[i]);
                i = i + 1;
                assert(out@ =~= before + lower@.take(i as int));
            }
            assert(lower@.take(lower@.len() as int) =~= lower@);
            round = round + 1;
        }
        out
    } else {
        let mut out = String::from_str(label);
        out.append(" ");
        out.append(label);
        out
    }
}

fn first_doubled(prefix: &[KeySpec]) -> (r: String)
    ensures
        r@ == prefix_label(prefix@),
{
    if prefix.len() > 0 {
        doubled_label(prefix[0].label().as_str())
    } else {
        String::new()
    }
}

fn push_item(
    items: &mut Vec<HelpItem>,
    scope: HelpScope,
    binding: String,
    summary: &str,
    description: String,
)
    ensures
        help_item_views(final(items)@) == help_item_views(old(items)@).push(
            hv(scope, binding@, summary@, description@),
        ),
{
    items.push(HelpItem { scope, binding, summary: String::from_str(summary), description });
    assert(help_item_views(final(items)@) =~= help_item_views(old(items)@).push(
        hv(scope, binding@, summary@, description@),
    ));
}

fn text(s: &str) -> (r: String)
    ensures
        r@ == s@,
{
    String::from_str(s)
}

fn chain4(a: &[KeySpec], b: &[KeySpec], c: &[KeySpec], d: &[KeySpec]) -> (r: Vec<KeySpec>)
    ensures
        r@ == a@ + b@ + c@ + d@,
{
    let ab = chain(a, b);
    let abc = chain(ab.as_slice(), c);
    chain(abc.as_slice(), d)
}

pub open spec fn command_log_items(b: KeyBindings) -> Seq<HelpItemView> {
    let l = b.command_log;
    let n = b.nav;
    seq![
        hv(
            HelpScope::Local,
            close_label_of(b, l.close),
            "Close log"@,
            "Close the command log dialog."@,
        ),
        hv(
            HelpScope::Local,
            labels_joined(
                resolved(l.move_up, n.up@) + resolved(l.move_down, n.down@) + n.arrow_up@
                    + n.arrow_down@,
                " / "@,
            ),
            "Move log"@,
            "Scroll the command log up or down."@,
        ),
        hv(
            HelpScope::Local,
            labels_joined(
                resolved(l.half_page_up, n.half_page_up@) + resolved(
                    l.half_page_down,
                    n.half_page_down@,
                ) + n.page_up@ + n.page_down@,
                " / "@,
            ),
            "Page log"@,
            "Page through command log entries."@,
        ),
        hv(
            HelpScope::Local,
            labels_joined(
                resolved(l.first, n.goto_start_prefix@) + resolved(l.last, n.goto_end@) + n.home@
                    + n.end@,
                " / "@,
            ),
            "Start / End"@,
            "Jump to the first or last command log entry."@,
        ),
    ]
}

pub open spec fn ticket_dialog_items(b: KeyBindings) -> Seq<HelpItemView> {
    seq![
        hv(
            HelpScope::Local,
            close_label_of(b, b.close_ticket),
            "Close ticket"@,
            "Close the ticket dialog."@,
        ),
        hv(
            HelpScope::Local,
            key_label(b.tabs.previous) + " / "@ + key_label(b.tabs.next),
            "Switch ticket tabs"@,
            "Move between ticket dialog tabs."@,
        ),
    ]
}

pub open spec fn dropdown_items(b: KeyBindings) -> Seq<HelpItemView> {
    let d = b.dropdown;
    let n = b.nav;
    seq![
        hv(
            HelpScope::Local,
            key_label(d.toggle_selected) + " / "@ + key_label(d.toggle_from_filter),
            "Toggle selection"@,
            "Toggle current option (multi-select) or select it (single-select)."@,
        ),
        hv(
            HelpScope::Local,
            key_label(d.submit_from_filter),
            "Do selection"@,
            "Select and submit the current option from the search input."@,
        ),
        hv(
            HelpScope::Local,
            labels_joined(seq![d.filter_move_down, d.filter_move_up], " / "@),
            "Navigate search options"@,
            "Move option selection down/up while typing in the search input."@,
        ),
        hv(
            HelpScope::Local,
            key_label(d.focus_filter),
            "Focus search"@,
            "Focus the search input to filter options."@,
        ),
        hv(
            HelpScope::Local,
            key_label(d.filter_clear),
            "Clear search"@,
            "Clear the search input text."@,
        ),
        hv(
            HelpScope::Local,
            close_label_of(b, d.close),
            "Clear / Close"@,
            "Clear search input focus (first press) and close the dropdown (second press)."@,
        ),
        hv(
            HelpScope::Local,
            labels_joined(
                resolved(d.move_down, n.down@) + resolved(d.move_up, n.up@) + n.arrow_down@
                    + n.arrow_up@,
                " / "@,
            ),
            "Move selection"@,
            "Move selection down/up when search is not focused."@,
        ),
        hv(
            HelpScope::Local,
            prefix_label(resolved(d.first, n.goto_start_prefix@)) + " / "@ + labels_joined(
                resolved(d.last, n.goto_end@) + n.home@ + n.end@,
                " / "@,
            ),
            "Start / End"@,
            "Jump to the first or last option."@,
        ),
        hv(
            HelpScope::Local,
            labels_joined(
                resolved(d.half_page_up, n.half_page_up@) + resolved(
                    d.half_page_down,
                    n.half_page_down@,
                ) + n.page_up@ + n.page_down@,
                " / "@,
            ),
            "Scroll page"@,
            "Page up/down through options."@,
        ),
    ]
}

pub open spec fn setup_items(b: KeyBindings) -> Seq<HelpItemView> {
    seq![
        hv(
            HelpScope::Local,
            key_label(b.setup_next_field),
            "Next field"@,
            "Move focus to the next setup field."@,
        ),
        hv(
            HelpScope::Local,
            key_label(b.setup_previous_field),
            "Previous field"@,
            "Move focus to the previous setup field."@,
        ),
        hv(
            HelpScope::Local,
            key_label(b.setup_submit),
            "Load issues"@,
            "Save credentials and load Jira issues."@,
        ),
        hv(HelpScope::Local, key_label(b.setup_quit), "Quit"@, "Exit without saving setup data."@),
    ]
}

fn command_log_help_items(b: &KeyBindings) -> (r: Vec<HelpItem>)
    ensures
        help_item_views(r@) == command_log_items(*b),
{
    let l = &b.command_log;
    let n = &b.nav;
    let mut items: Vec<HelpItem> = Vec::new();
    push_item(
        &mut items,
        HelpScope::Local,
        b.close_label(l.close),
        "Close log",
        text("Close the command log dialog."),
    );
    let moves = chain4(
        resolve(&l.move_up, n.up.as_slice()),
        resolve(&l.move_down, n.down.as_slice()),
        n.arrow_up.as_slice(),
        n.arrow_down.as_slice(),
    );
    push_item(
        &mut items,
        HelpScope::Local,
        join_labels(moves.as_slice(), " / "),
        "Move log",
        text("Scroll the command log up or down."),
    );
    let pages = chain4(
        resolve(&l.half_page_up, n.half_page_up.as_slice()),
        resolve(&l.half_page_down, n.half_page_down.as_slice()),
        n.page_up.as_slice(),
        n.page_down.as_slice(),
    );
    push_item(
        &mut items,
        HelpScope::Local,
        join_labels(pages.as_slice(), " / "),
        "Page log",
        text("Page through command log entries."),
    );
    let ends = chain4(
        resolve(&l.first, n.goto_start_prefix.as_slice()),
        resolve(&l.last, n.goto_end.as_slice()),
        n.home.as_slice(),
        n.end.as_slice(),
    );
    push_item(
        &mut items,
        HelpScope::Local,
        join_labels(ends.as_slice(), " / "),
        "Start / End",
        text("Jump to the first or last command log entry."),
    );
    assert(help_item_views(items@) =~= command_log_items(*b));
    items
}

fn ticket_dialog_help_items(b: &KeyBindings) -> (r: Vec<HelpItem>)
    ensures
        help_item_views(r@) == ticket_dialog_items(*b),
{
    let mut items: Vec<HelpItem> = Vec::new();
    push_item(
        &mut items,
        HelpScope::Local,
        b.close_label(b.close_ticket),
        "Close ticket",
        text("Close the ticket dialog."),
    );
    let mut tabs = b.tabs.previous.label();
    tabs.append(" / ");
    tabs.append(b.tabs.next.label().as_str());
    push_item(
        &mut items,
        HelpScope::Local,
        tabs,
        "Switch ticket tabs",
        text("Move between ticket dialog tabs."),
    );
    assert(help_item_views(items@) =~= ticket_dialog_items(*b));
    items
}

fn dropdown_help_items(b: &KeyBindings) -> (r: Vec<HelpItem>)
    ensures
        help_item_views(r@) == dropdown_items(*b),
{
    let d = &b.dropdown;
    let n = &b.nav;
    let mut items: Vec<HelpItem> = Vec::new();
    let mut toggle = d.toggle_selected.label();
    toggle.append(" / ");
    toggle.append(d.toggle_from_filter.label().as_str());
    push_item(
        &mut items,
        HelpScope::Local,
        toggle,
        "Toggle selection",
        text("Toggle current option (multi-select) or select it (single-select)."),
    );
    push_item(
        &mut items,
        HelpScope::Local,
        d.submit_from_filter.label(),
        "Do selection",
        text("Select and submit the current option from the search input."),
    );
    let filter_moves = [d.filter_move_down, d.filter_move_up];
    assert(filter_moves@ =~= seq![d.filter_move_down, d.filter_move_up]);
    push_item(
        &mut items,
        HelpScope::Local,
        join_labels(&filter_moves, " / "),
        "Navigate search options",
        text("Move option selection down/up while typing in the search input."),
    );
    push_item(
        &mut items,
        HelpScope::Local,
        d.focus_filter.label(),
        "Focus search",
        text("Focus the search input to filter options."),
    );
    push_item(
        &mut items,
        HelpScope::Local,
        d.filter_clear.label(),
        "Clear search",
        text("Clear the search input text."),
    );
    push_item(
        &mut items,
        HelpScope::Local,
        b.close_label(d.close),
        "Clear / Close",
        text("Clear search input focus (first press) and close the dropdown (second press)."),
    );
    let moves = chain4(
        resolve(&d.move_down, n.down.as_slice()),
        resolve(&d.move_up, n.up.as_slice()),
        n.arrow_down.as_slice(),
        n.arrow_up.as_slice(),
    );
    push_item(
        &mut items,
        HelpScope::Local,
        join_labels(moves.as_slice(), " / "),
        "Move selection",
        text("Move selection down/up when search is not focused."),
    );
    let mut ends = first_doubled(resolve(&d.first, n.goto_start_prefix.as_slice()));
    let end_keys = chain(resolve(&d.last, n.goto_end.as_slice()), n.home.as_slice());
    let end_keys = chain(end_keys.as_slice(), n.end.as_slice());
    ends.append(" / ");
    ends.append(join_labels(end_keys.as_slice(), " / ").as_str());
    push_item(
        &mut items,
        HelpScope::Local,
        ends,
        "Start / End",
        text("Jump to the first or last option."),
    );
    let pages = chain4(
        resolve(&d.half_page_up, n.half_page_up.as_slice()),
        resolve(&d.half_page_down, n.half_page_down.as_slice()),
        n.page_up.as_slice(),
        n.page_down.as_slice(),
    );
    push_item(
        &mut items,
        HelpScope::Local,
        join_labels(pages.as_slice(), " / "),
        "Scroll page",
        text("Page up/down through options."),
    );
    assert(help_item_views(items@) =~= dropdown_items(*b));
    items
}

fn setup_help_items(b: &KeyBindings) -> (r: Vec<HelpItem>)
    ensures
        help_item_views(r@) == setup_items(*b),
{
    let mut items: Vec<HelpItem> = Vec::new();
    push_item(
        &mut items,
        HelpScope::Local,
        b.setup_next_field.label(),
        "Next field",
        text("Move focus to the next setup field."),
    );
    push_item(
        &mut items,
        HelpScope::Local,
        b.setup_previous_field.label(),
        "Previous field",
        text("Move focus to the previous setup field."),
    );
    push_item(
        &mut items,
        HelpScope::Local,
        b.setup_submit.label(),
        "Load issues",
        text("Save credentials and load Jira issues."),
    );
    push_item(
        &mut items,
        HelpScope::Local,
        b.setup_quit.label(),
        "Quit",
        text("Exit without saving setup data."),
    );
    assert(help_item_views(items@) =~= setup_items(*b));
    items
}

pub open spec fn board_items(b: KeyBindings) -> Seq<HelpItemView> {
    let bd = b.board;
    let n = b.nav;
    seq![
        hv(
            HelpScope::Local,
            key_label(b.tree.focus_filter),
            "Search board"@,
            "Focus the board search and narrow visible cards."@,
        ),
        hv(
            HelpScope::Local,
            key_label(b.board_details),
            "Sprint details"@,
            "Show the active sprint's name, goal, dates, and time remaining."@,
        ),
        hv(
            HelpScope::Local,
            key_label(b.open_ticket),
            "Open ticket"@,
            "Open the selected board card in the ticket dialog."@,
        ),
        hv(
            HelpScope::Local,
            key_label(b.board_group),
            "Group board"@,
            "Group the board by assignee, epic, stories, or spaces."@,
        ),
        hv(
            HelpScope::Local,
            labels_joined(bd.move_left@ + bd.move_right@, "/"@),
            "Move columns"@,
            "Move to the nearest issue in the previous or next board column."@,
        ),
        hv(
            HelpScope::Local,
            labels_joined(resolved(bd.move_up, n.up@) + resolved(bd.move_down, n.down@), "/"@),
            "Move cards"@,
            "Move to the previous or next issue in the current board column."@,
        ),
        hv(
            HelpScope::Local,
            key_label(bd.toggle_move_mode),
            "Move mode"@,
            "Start moving the selected ticket, then press again to place it."@,
        ),
        hv(
            HelpScope::Local,
            key_label(bd.place_move_mode),
            "Place ticket"@,
            "Place the selected ticket while in move mode."@,
        ),
        hv(
            HelpScope::Local,
            labels_joined(
                bd.move_ticket_left@ + bd.move_ticket_right@ + bd.move_ticket_up@
                    + bd.move_ticket_down@,
                "/"@,
            ),
            "Move ticket"@,
            "Move the selected ticket between columns or reorder it locally."@,
        ),
        hv(
            HelpScope::Local,
            labels_joined(resolved(bd.page_up, n.half_page_up@ + n.page_up@), " / "@) + " / "@
                + labels_joined(resolved(bd.page_down, n.half_page_down@ + n.page_down@), " / "@),
            "Page cards"@,
            "Move through board issues by half pages."@,
        ),
        hv(
            HelpScope::Local,
            labels_joined(resolved(bd.first, n.home@), " / "@) + " / "@ + labels_joined(
                resolved(bd.last, n.end@ + n.goto_end@),
                " / "@,
            ),
            "Start / End"@,
            "Jump to the first or last board issue."@,
        ),
        hv(
            HelpScope::Local,
            key_label(b.tree.open_assignee),
            "Assign"@,
            "Open the assignee selector for the selected board card."@,
        ),
        hv(
            HelpScope::Local,
            key_label(b.tree.assign_to_me),
            "Assign to me"@,
            "Assign the selected board card to the current Jira user."@,
        ),
        hv(
            HelpScope::Local,
            key_label(b.tree.unassign),
            "Unassign"@,
            "Clear the selected board card assignee."@,
        ),
        hv(
            HelpScope::Local,
            key_label(b.reload_list),
            "Reload board"@,
            "Reload the active Jira board."@,
        ),
    ]
}

pub open spec fn list_paging(b: KeyBindings) -> Seq<char> {
    labels_joined(
        resolved(b.tree.half_page_up, b.nav.half_page_up@) + resolved(
            b.tree.half_page_down,
            b.nav.half_page_down@,
        ) + b.nav.page_up@ + b.nav.page_down@,
        " / "@,
    )
}

pub open spec fn list_items(b: KeyBindings) -> Seq<HelpItemView> {
    let t = b.tree;
    let n = b.nav;
    seq![
        hv(
            HelpScope::Local,
            key_label(t.focus_filter),
            "Search issues"@,
            "Focus the issue filter and narrow the current list."@,
        ),
        hv(
            HelpScope::Local,
            key_label(b.open_ticket),
            "Open ticket"@,
            "Open the selected issue in the ticket dialog."@,
        ),
        hv(
            HelpScope::Local,
            labels_joined(resolved(t.move_up, n.up@) + resolved(t.move_down, n.down@), "/"@),
            "Move selection"@,
            "Move selection ("@ + list_paging(b) + " for paging, "@ + labels_joined(
                n.home@ + n.end@,
                " / "@,
            ) + " for edges)."@,
        ),
        hv(
            HelpScope::Local,
            prefix_label(resolved(t.go_to_start_prefix, n.goto_start_prefix@)) + " / "@
                + labels_joined(resolved(t.go_to_end, n.goto_end@) + n.home@ + n.end@, " / "@),
            "Start / End"@,
            "Jump to the first or last visible issue."@,
        ),
        hv(
            HelpScope::Local,
            list_paging(b),
            "Scroll page"@,
            "Move through the issue list by half pages."@,
        ),
        hv(
            HelpScope::Local,
            key_label(t.collapse) + "/"@ + key_label(t.expand),
            "Collapse / expand"@,
            "Collapse a branch or expand the selected parent row."@,
        ),
        hv(
            HelpScope::Local,
            labels_joined(n.scroll_left@ + n.scroll_right@, " / "@),
            "Scroll columns"@,
            "Pan the table left or right when columns overflow the width."@,
        ),
        hv(
            HelpScope::Local,
            key_label(t.toggle_expand),
            "Toggle branch"@,
            "Expand or collapse the selected tree row."@,
        ),
        hv(
            HelpScope::Local,
            key_label(t.open_columns),
            "Columns"@,
            "Open the column picker for the issue table."@,
        ),
        hv(
            HelpScope::Local,
            key_label(t.open_assignee),
            "Assign"@,
            "Open the assignee selector for the selected issue."@,
        ),
        hv(
            HelpScope::Local,
            key_label(t.assign_to_me),
            "Assign to me"@,
            "Assign the selected issue to the current Jira user."@,
        ),
        hv(
            HelpScope::Local,
            key_label(t.unassign),
            "Unassign"@,
            "Clear the selected issue assignee."@,
        ),
        hv(
            HelpScope::Local,
            doubled(key_label(t.yank_issue_url)),
            "Copy issue URL"@,
            "Copy the selected Jira issue URL to the clipboard."@,
        ),
        hv(
            HelpScope::Local,
            key_label(b.reload_list),
            "Reload list"@,
            "Reload all issues for the active Jira project."@,
        ),
    ]
}

pub open spec fn timeline_items(b: KeyBindings) -> Seq<HelpItemView> {
    let t = b.tree;
    let n = b.nav;
    seq![
        hv(
            HelpScope::Local,
            key_label(t.focus_filter),
            "Search"@,
            "Filter timeline epics and child issues locally with fuzzy matching."@,
        ),
        hv(
            HelpScope::Local,
            key_label(b.open_ticket),
            "Open ticket"@,
            "Open the selected timeline item in the ticket dialog."@,
        ),
        hv(
            HelpScope::Local,
            labels_joined(resolved(t.move_down, n.down@) + resolved(t.move_up, n.up@), " / "@),
            "Move selection"@,
            "Move the timeline selection between epics and child issues."@,
        ),
        hv(
            HelpScope::Local,
            labels_joined(seq![t.expand, t.collapse, t.toggle_expand], " / "@),
            "Expand / collapse"@,
            "Expand or collapse the selected epic to show its child issues."@,
        ),
        hv(
            HelpScope::Local,
            key_label(t.expand_all) + " / "@ + collapse_all_label_of(b),
            "Expand / collapse all"@,
            "Expand or collapse every loaded epic on the timeline."@,
        ),
        hv(
            HelpScope::Local,
            labels_joined(n.scroll_left@ + n.scroll_right@, " / "@),
            "Scroll timeline"@,
            "Scroll the timeline axis left/right through the months."@,
        ),
        hv(
            HelpScope::Local,
            key_label(b.reload_list),
            "Reload timeline"@,
            "Reload the timeline epics and child issues from Jira."@,
        ),
    ]
}

pub open spec fn global_items(b: KeyBindings) -> Seq<HelpItemView> {
    seq![
        hv(
            HelpScope::Global,
            key_label(b.leader),
            "Leader key"@,
            "Press leader, then "@ + key_label(b.leader_command_log) + " log, "@ + key_label(
                b.leader_project,
            ) + " project, "@ + key_label(b.leader_theme) + " theme, or "@ + key_label(
                b.leader_board,
            ) + " / "@ + key_label(b.leader_list) + " / "@ + key_label(b.leader_timeline)
                + " tabs."@,
        ),
        hv(
            HelpScope::Global,
            leader_shortcut(b, b.leader_command_log),
            "Command log"@,
            "Open the command log dialog."@,
        ),
        hv(
            HelpScope::Global,
            leader_shortcut(b, b.leader_project),
            "Project picker"@,
            "Open the project picker centered on the current project."@,
        ),
        hv(
            HelpScope::Global,
            leader_shortcut(b, b.leader_theme),
            "Theme picker"@,
            "Open the theme picker and preview themes while moving."@,
        ),
        hv(
            HelpScope::Global,
            leader_shortcut(b, b.leader_board),
            "Go to Board"@,
            "Jump to the Board tab."@,
        ),
        hv(
            HelpScope::Global,
            leader_shortcut(b, b.leader_list),
            "Go to List"@,
            "Jump to the List tab."@,
        ),
        hv(
            HelpScope::Global,
            leader_shortcut(b, b.leader_timeline),
            "Go to Timeline"@,
            "Jump to the Timeline tab."@,
        ),
        hv(
            HelpScope::Global,
            key_label(b.quick_switcher),
            "Quick actions"@,
            "Open the centered quick actions menu."@,
        ),
        hv(
            HelpScope::Global,
            key_label(b.open_help),
            "Close shortcuts"@,
            "Close the shortcuts dialog."@,
        ),
    ]
}

/// The entries of the help dialog for a screen, tab and context: the
/// context's own entries (on the main screen, tab switching and the active
/// tab's keys), then the keys that work everywhere.
pub open spec fn help_entries(
    b: KeyBindings,
    screen: Screen,
    active_tab: Seq<char>,
    context: HelpContext,
) -> Seq<HelpItemView> {
    let own = match context {
        HelpContext::Dropdown => dropdown_items(b),
        HelpContext::CommandLog => command_log_items(b),
        HelpContext::TicketDialog => ticket_dialog_items(b),
        HelpContext::Normal => match screen {
            Screen::Setup => setup_items(b),
            Screen::Main => seq![
                hv(
                    HelpScope::Local,
                    key_label(b.tabs.previous) + "/"@ + key_label(b.tabs.next),
                    "Switch tabs"@,
                    "Move between the top-level Jira tabs."@,
                ),
            ] + (if active_tab == "Board"@ {
                board_items(b)
            } else {
                Seq::empty()
            }) + (if active_tab == "List"@ {
                list_items(b)
            } else {
                Seq::empty()
            }) + (if active_tab == "Timeline"@ {
                timeline_items(b)
            } else {
                Seq::empty()
            }),
        },
    };
    own + global_items(b)
}

fn board_help_items(b: &KeyBindings, items: &mut Vec<HelpItem>)
    ensures
        help_item_views(final(items)@) == help_item_views(old(items)@) + board_items(*b),
{
    let ghost start = help_item_views(items@);
    let bd = &b.board;
    let n = &b.nav;
    push_item(
        items,
        HelpScope::Local,
        b.tree.focus_filter.label(),
        "Search board",
        text("Focus the board search and narrow visible cards."),
    );
    push_item(
        items,
        HelpScope::Local,
        b.board_details.label(),
        "Sprint details",
        text("Show the active sprint's name, goal, dates, and time remaining."),
    );
    push_item(
        items,
        HelpScope::Local,
        b.open_ticket.label(),
        "Open ticket",
        text("Open the selected board card in the ticket dialog."),
    );
    push_item(
        items,
        HelpScope::Local,
        b.board_group.label(),
        "Group board",
        text("Group the board by assignee, epic, stories, or spaces."),
    );
    let columns = chain(bd.move_left.as_slice(), bd.move_right.as_slice());
    push_item(
        items,
        HelpScope::Local,
        join_labels(columns.as_slice(), "/"),
        "Move columns",
        text("Move to the nearest issue in the previous or next board column."),
    );
    let cards = chain(
        resolve(&bd.move_up, n.up.as_slice()),
        resolve(&bd.move_down, n.down.as_slice()),
    );
    push_item(
        items,
        HelpScope::Local,
        join_labels(cards.as_slice(), "/"),
        "Move cards",
        text("Move to the previous or next issue in the current board column."),
    );
    push_item(
        items,
        HelpScope::Local,
        bd.toggle_move_mode.label(),
        "Move mode",
        text("Start moving the selected ticket, then press again to place it."),
    );
    push_item(
        items,
        HelpScope::Local,
        bd.place_move_mode.label(),
        "Place ticket",
        text("Place the selected ticket while in move mode."),
    );
    let tickets = chain4(
        bd.move_ticket_left.as_slice(),
        bd.move_ticket_right.as_slice(),
        bd.move_ticket_up.as_slice(),
        bd.move_ticket_down.as_slice(),
    );
    push_item(
        items,
        HelpScope::Local,
        join_labels(tickets.as_slice(), "/"),
        "Move ticket",
        text("Move the selected ticket between columns or reorder it locally."),
    );
    let shared_up = chain(n.half_page_up.as_slice(), n.page_up.as_slice());
    let shared_down = chain(n.half_page_down.as_slice(), n.page_down.as_slice());
    let mut pages = join_labels(resolve(&bd.page_up, shared_up.as_slice()), " / ");
    pages.append(" / ");
    pages.append(join_labels(resolve(&bd.page_down, shared_down.as_slice()), " / ").as_str());
    push_item(
        items,
        HelpScope::Local,
        pages,
        "Page cards",
        text("Move through board issues by half pages."),
    );
    let shared_last = chain(n.end.as_slice(), n.goto_end.as_slice());
    let mut ends = join_labels(resolve(&bd.first, n.home.as_slice()), " / ");
    ends.append(" / ");
    ends.append(join_labels(resolve(&bd.last, shared_last.as_slice()), " / ").as_str());
    push_item(
        items,
        HelpScope::Local,
        ends,
        "Start / End",
        text("Jump to the first or last board issue."),
    );
    push_item(
        items,
        HelpScope::Local,
        b.tree.open_assignee.label(),
        "Assign",
        text("Open the assignee selector for the selected board card."),
    );
    push_item(
        items,
        HelpScope::Local,
        b.tree.assign_to_me.label(),
        "Assign to me",
        text("Assign the selected board card to the current Jira user."),
    );
    push_item(
        items,
        HelpScope::Local,
        b.tree.unassign.label(),
        "Unassign",
        text("Clear the selected board card assignee."),
    );
    push_item(
        items,
        HelpScope::Local,
        b.reload_list.label(),
        "Reload board",
        text("Reload the active Jira board."),
    );
    assert(help_item_views(items@) =~= start + board_items(*b));
}

fn list_help_items(b: &KeyBindings, items: &mut Vec<HelpItem>)
    ensures
        help_item_views(final(items)@) == help_item_views(old(items)@) + list_items(*b),
{
    let ghost start = help_item_views(items@);
    let t = &b.tree;
    let n = &b.nav;
    push_item(
        items,
        HelpScope::Local,
        t.focus_filter.label(),
        "Search issues",
        text("Focus the issue filter and narrow the current list."),
    );
    push_item(
        items,
        HelpScope::Local,
        b.open_ticket.label(),
        "Open ticket",
        text("Open the selected issue in the ticket dialog."),
    );
    let paging_keys = chain4(
        resolve(&t.half_page_up, n.half_page_up.as_slice()),
        resolve(&t.half_page_down, n.half_page_down.as_slice()),
        n.page_up.as_slice(),
        n.page_down.as_slice(),
    );
    let edge_keys = chain(n.home.as_slice(), n.end.as_slice());
    let moves = chain(
        resolve(&t.move_up, n.up.as_slice()),
        resolve(&t.move_down, n.down.as_slice()),
    );
    let mut description = text("Move selection (");
    description.append(join_labels(paging_keys.as_slice(), " / ").as_str());
    description.append(" for paging, ");
    description.append(join_labels(edge_keys.as_slice(), " / ").as_str());
    description.append(" for edges).");
    push_item(
        items,
        HelpScope::Local,
        join_labels(moves.as_slice(), "/"),
        "Move selection",
        description,
    );
    let mut ends = first_doubled(resolve(&t.go_to_start_prefix, n.goto_start_prefix.as_slice()));
    let end_keys = chain(resolve(&t.go_to_end, n.goto_end.as_slice()), n.home.as_slice());
    let end_keys = chain(end_keys.as_slice(), n.end.as_slice());
    ends.append(" / ");
    ends.append(join_labels(end_keys.as_slice(), " / ").as_str());
    push_item(
        items,
        HelpScope::Local,
        ends,
        "Start / End",
        text("Jump to the first or last visible issue."),
    );
    push_item(
        items,
        HelpScope::Local,
        join_labels(paging_keys.as_slice(), " / "),
        "Scroll page",
        text("Move through the issue list by half pages."),
    );
    let mut branch = t.collapse.label();
    branch.append("/");
    branch.append(t.expand.label().as_str());
    push_item(
        items,
        HelpScope::Local,
        branch,
        "Collapse / expand",
        text("Collapse a branch or expand the selected parent row."),
    );
    let scroll = chain(n.scroll_left.as_slice(), n.scroll_right.as_slice());
    push_item(
        items,
        HelpScope::Local,
        join_labels(scroll.as_slice(), " / "),
        "Scroll columns",
        text("Pan the table left or right when columns overflow the width."),
    );
    push_item(
        items,
        HelpScope::Local,
        t.toggle_expand.label(),
        "Toggle branch",
        text("Expand or collapse the selected tree row."),
    );
    push_item(
        items,
        HelpScope::Local,
        t.open_columns.label(),
        "Columns",
        text("Open the column picker for the issue table."),
    );
    push_item(
        items,
        HelpScope::Local,
        t.open_assignee.label(),
        "Assign",
        text("Open the assignee selector for the selected issue."),
    );
    push_item(
        items,
        HelpScope::Local,
        t.assign_to_me.label(),
        "Assign to me",
        text("Assign the selected issue to the current Jira user."),
    );
    push_item(
        items,
        HelpScope::Local,
        t.unassign.label(),
        "Unassign",
        text("Clear the selected issue assignee."),
    );
    push_item(
        items,
        HelpScope::Local,
        doubled_label(t.yank_issue_url.label().as_str()),
        "Copy issue URL",
        text("Copy the selected Jira issue URL to the clipboard."),
    );
    push_item(
        items,
        HelpScope::Local,
        b.reload_list.label(),
        "Reload list",
        text("Reload all issues for the active Jira project."),
    );
    assert(help_item_views(items@) =~= start + list_items(*b));
}

fn timeline_help_items(b: &KeyBindings, items: &mut Vec<HelpItem>)
    ensures
        help_item_views(final(items)@) == help_item_views(old(items)@) + timeline_items(*b),
{
    let ghost start = help_item_views(items@);
    let t = &b.tree;
    let n = &b.nav;
    push_item(
        items,
        HelpScope::Local,
        t.focus_filter.label(),
        "Search",
        text("Filter timeline epics and child issues locally with fuzzy matching."),
    );
    push_item(
        items,
        HelpScope::Local,
        b.open_ticket.label(),
        "Open ticket",
        text("Open the selected timeline item in the ticket dialog."),
    );
    let moves = chain(
        resolve(&t.move_down, n.down.as_slice()),
        resolve(&t.move_up, n.up.as_slice()),
    );
    push_item(
        items,
        HelpScope::Local,
        join_labels(moves.as_slice(), " / "),
        "Move selection",
        text("Move the timeline selection between epics and child issues."),
    );
    let branch = [t.expand, t.collapse, t.toggle_expand];
    assert(branch@ =~= seq![t.expand, t.collapse, t.toggle_expand]);
    push_item(
        items,
        HelpScope::Local,
        join_labels(&branch, " / "),
        "Expand / collapse",
        text("Expand or collapse the selected epic to show its child issues."),
    );
    let mut all = t.expand_all.label();
    all.append(" / ");
    all.append(b.collapse_all_label().as_str());
    push_item(
        items,
        HelpScope::Local,
        all,
        "Expand / collapse all",
        text("Expand or collapse every loaded epic on the timeline."),
    );
    let scroll = chain(n.scroll_left.as_slice(), n.scroll_right.as_slice());
    push_item(
        items,
        HelpScope::Local,
        join_labels(scroll.as_slice(), " / "),
        "Scroll timeline",
        text("Scroll the timeline axis left/right through the months."),
    );
    push_item(
        items,
        HelpScope::Local,
        b.reload_list.label(),
        "Reload timeline",
        text("Reload the timeline epics and child issues from Jira."),
    );
    assert(help_item_views(items@) =~= start + timeline_items(*b));
}

fn leader_then(b: &KeyBindings, binding: KeySpec) -> (r: String)
    ensures
        r@ == leader_shortcut(*b, binding),
{
    let mut out = b.leader.label();
    out.append(" ");
    out.append(binding.label().as_str());
    out
}

fn append_global_help_items(b: &KeyBindings, items: &mut Vec<HelpItem>)
    ensures
        help_item_views(final(items)@) == help_item_views(old(items)@) + global_items(*b),
{
    let ghost start = help_item_views(items@);
    let mut description = text("Press leader, then ");
    description.append(b.leader_command_log.label().as_str());
    description.append(" log, ");
    description.append(b.leader_project.label().as_str());
    description.append(" project, ");
    description.append(b.leader_theme.label().as_str());
    description.append(" theme, or ");
    description.append(b.leader_board.label().as_str());
    description.append(" / ");
    description.append(b.leader_list.label().as_str());
    description.append(" / ");
    description.append(b.leader_timeline.label().as_str());
    description.append(" tabs.");
    push_item(items, HelpScope::Global, b.leader.label(), "Leader key", description);
    push_item(
        items,
        HelpScope::Global,
        leader_then(b, b.leader_command_log),
        "Command log",
        text("Open the command log dialog."),
    );
    push_item(
        items,
        HelpScope::Global,
        leader_then(b, b.leader_project),
        "Project picker",
        text("Open the project picker centered on the current project."),
    );
    push_item(
        items,
        HelpScope::Global,
        leader_then(b, b.leader_theme),
        "Theme picker",
        text("Open the theme picker and preview themes while moving."),
    );
    push_item(
        items,
        HelpScope::Global,
        leader_then(b, b.leader_board),
        "Go to Board",
        text("Jump to the Board tab."),
    );
    push_item(
        items,
        HelpScope::Global,
        leader_then(b, b.leader_list),
        "Go to List",
        text("Jump to the List tab."),
    );
    push_item(
        items,
        HelpScope::Global,
        leader_then(b, b.leader_timeline),
        "Go to Timeline",
        text("Jump to the Timeline tab."),
    );
    push_item(
        items,
        HelpScope::Global,
        b.quick_switcher.label(),
        "Quick actions",
        text("Open the centered quick actions menu."),
    );
    push_item(
        items,
        HelpScope::Global,
        b.open_help.label(),
        "Close shortcuts",
        text("Close the shortcuts dialog."),
    );
    assert(help_item_views(items@) =~= start + global_items(*b));
}

impl KeyBindings {
    /// The help entries for a screen and tab, in the dropdown's context when
    /// a dropdown is open.
    pub fn help_items(&self, screen: Screen, active_tab: &str, dropdown_open: bool) -> (r: Vec<
        HelpItem,
    >)
        ensures
            help_item_views(r@) == help_entries(
                *self,
                screen,
                active_tab@,
                if dropdown_open {
                    HelpContext::Dropdown
                } else {
                    HelpContext::Normal
                },
            ),
    {
        let context = if dropdown_open {
            HelpContext::Dropdown
        } else {
            HelpContext::Normal
        };
        self.help_items_for_context(screen, active_tab, context)
    }

    /// The help entries for a screen, tab and context.
    pub fn help_items_for_context(
        &self,
        screen: Screen,
        active_tab: &str,
        context: HelpContext,
    ) -> (r: Vec<HelpItem>)
        ensures
            help_item_views(r@) == help_entries(*self, screen, active_tab@, context),
    {
        let mut items = match context {
            HelpContext::Dropdown => dropdown_help_items(self),
            HelpContext::CommandLog => command_log_help_items(self),
            HelpContext::TicketDialog => ticket_dialog_help_items(self),
            HelpContext::Normal => match screen {
                Screen::Setup => setup_help_items(self),
                Screen::Main => {
                    let mut items: Vec<HelpItem> = Vec::new();
                    let mut tabs = self.tabs.previous.label();
                    tabs.append("/");
                    tabs.append(self.tabs.next.label().as_str());
                    push_item(
                        &mut items,
                        HelpScope::Local,
                        tabs,
                        "Switch tabs",
                        text("Move between the top-level Jira tabs."),
                    );
                    let ghost first = help_item_views(items@);
                    let is_board = str_eq(active_tab, "Board");
                    if is_board {
                        board_help_items(self, &mut items);
                    }
                    let ghost after_board = help_item_views(items@);
                    assert(after_board =~= first + (if active_tab@ == "Board"@ {
                        board_items(*self)
                    } else {
                        Seq::empty()
                    }));
                    if str_eq(active_tab, "List") {
                        list_help_items(self, &mut items);
                    }
                    let ghost after_list = help_item_views(items@);
                    assert(after_list =~= after_board + (if active_tab@ == "List"@ {
                        list_items(*self)
                    } else {
                        Seq::empty()
                    }));
                    if str_eq(active_tab, "Timeline") {
                        timeline_help_items(self, &mut items);
                    }
                    assert(help_item_views(items@) =~= after_list + (if active_tab@
                        == "Timeline"@ {
                        timeline_items(*self)
                    } else {
                        Seq::empty()
                    }));
                    items
                },
            },
        };
        let ghost own = help_item_views(items@);
        append_global_help_items(self, &mut items);
        assert(help_item_views(items@) =~= own + global_items(*self));
        items
    }
}

} // verus!
