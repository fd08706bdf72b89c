//! The labels and hint lines that show the configured key bindings.
use vstd::prelude::*;
use vstd::string::StringExecFns;
use crate::actions::QuickAction;
use crate::keymap::{KeyBindings, resolve, resolved};
use crate::keys::{KeyCode, KeySpec, key_label, key_name};
use crate::models::decimal;
use crate::text::str_eq;

verus! {

/// The labels in order, each kept only at its first occurrence.
pub open spec fn dedup_labels(ls: Seq<Seq<char>>) -> Seq<Seq<char>>
    decreases ls.len(),
{
    if ls.len() == 0 {
        Seq::empty()
    } else {
        let d = dedup_labels(ls.drop_last());
        if d.contains(ls.last()) {
            d
        } else {
            d.push(ls.last())
        }
    }
}

/// The parts joined by `sep`.
pub open spec fn joined(parts: Seq<Seq<char>>, sep: Seq<char>) -> Seq<char>
    decreases parts.len(),
{
    if parts.len() == 0 {
        Seq::empty()
    } else if parts.len() == 1 {
        parts[0]
    } else {
        joined(parts.drop_last(), sep) + sep + parts.last()
    }
}

pub open spec fn labels_of(bindings: Seq<KeySpec>) -> Seq<Seq<char>> {
    bindings.map_values(|k: KeySpec| key_label(k))
}

/// The distinct labels of the bindings, in order, joined by `sep`.
pub open spec fn labels_joined(bindings: Seq<KeySpec>, sep: Seq<char>) -> Seq<char> {
    joined(dedup_labels(labels_of(bindings)), sep)
}

pub open spec fn string_views(v: Seq<String>) -> Seq<Seq<char>> {
    v.map_values(|s: String| s@)
}

fn contains_label(labels: &Vec<String>, label: &String) -> (r: bool)
    ensures
        r == string_views(labels@).contains(label@),
{
    let mut i: usize = 0;
    while i < labels.len()
        invariant
            i <= labels@.len(),
            forall|j: int| 0 <= j < i ==> labels@[j]@ != label@,
        decreases labels@.len() - i,
    {
        if str_eq(labels[i].as_str(), label.as_str()) {
            assert(string_views(labels@)[i as int] == label@);
            return true;
        }
        i = i + 1;
    }
    assert forall|j: int| 0 <= j < string_views(labels@).len() implies string_views(labels@)[j]
        != label@ by {
        assert(labels@[j]@ != label@);
    }
    false
}

/// The distinct labels of the bindings, in order, joined by `sep`.
pub fn join_labels(bindings: &[KeySpec], sep: &str) -> (r: String)
    ensures
        r@ == labels_joined(bindings@, sep@),
{
    let ghost ls = labels_of(bindings@);
    let mut labels: Vec<String> = Vec::new();
    let mut i: usize = 0;
    while i < bindings.len()
        invariant
            i <= bindings@.len(),
            ls == labels_of(bindings@),
            string_views(labels@) == dedup_labels(ls.take(i as int)),
        decreases bindings@.len() - i,
    {
        let label = bindings[i].label();
        assert(ls.take(i as int + 1).drop_last() =~= ls.take(i as int));
        if !contains_label(&labels, &label) {
            labels.push(label);
            assert(string_views(labels@) =~= dedup_labels(ls.take(i as int)).push(ls[i as int]));
        }
        i = i + 1;
    }
    assert(ls.take(bindings@.len() as int) =~= ls);
    let ghost parts = string_views(labels@);
    let mut out = String::new();
    let mut j: usize = 0;
    while j < labels.len()
        invariant
            j <= labels@.len(),
            parts == string_views(labels@),
            out@ == joined(parts.take(j as int), sep@),
        decreases labels@.len() - j,
    {
        assert(parts.take(j as int + 1).drop_last() =~= parts.take(j as int));
        if j > 0 {
            out.append(sep);
        }
        out.append(labels[j].as_str());
        proof {
            if j == 0 {
                assert(out@ =~= joined(parts.take(1), sep@));
            }
        }
        j = j + 1;
    }
    assert(parts.take(labels@.len() as int) =~= parts);
    out
}

/// The bindings of `a`, then those of `b`.
pub(crate) fn chain(a: &[KeySpec], b: &[KeySpec]) -> (r: Vec<KeySpec>)
    ensures
        r@ == a@ + b@,
{
    let mut out: Vec<KeySpec> = Vec::new();
    let mut i: usize = 0;
    while i < a.len()
        invariant
            i <= a@.len(),
            out@ == a@.take(i as int),
        decreases a@.len() - i,
    {
        out.push(a[i]);
        i = i + 1;
        assert(out@ =~= a@.take(i as int));
    }
    let mut j: usize = 0;
    while j < b.len()
        invariant
            j <= b@.len(),
            out@ == a@ + b@.take(j as int),
        decreases b@.len() - j,
    {
        out.push(b[j]);
        j = j + 1;
        assert(out@ =~= a@ + b@.take(j as int));
    }
    assert(b@.take(b@.len() as int) =~= b@);
    out
}

proof fn lemma_decimal_u8_len(n: nat)
    requires
        n < 256,
    ensures
        decimal(n).len() <= 3,
{
    reveal_with_fuel(decimal, 3);
    if n >= 10 {
        if n / 10 >= 10 {
            assert(n / 10 / 10 < 10);
        }
    }
}

/// A binding's label is at most 17 characters long.
pub proof fn lemma_key_label_len(k: KeySpec)
    ensures
        key_label(k).len() <= 17,
{
    reveal_strlit("Space");
    reveal_strlit("Esc");
    reveal_strlit("Enter");
    reveal_strlit("Tab");
    reveal_strlit("⇧Tab");
    reveal_strlit("Backspace");
    reveal_strlit("Delete");
    reveal_strlit("Left");
    reveal_strlit("Right");
    reveal_strlit("Up");
    reveal_strlit("Down");
    reveal_strlit("Home");
    reveal_strlit("End");
    reveal_strlit("PageUp");
    reveal_strlit("PageDown");
    reveal_strlit("Insert");
    reveal_strlit("F(");
    reveal_strlit(")");
    reveal_strlit("Null");
    reveal_strlit("CapsLock");
    reveal_strlit("ScrollLock");
    reveal_strlit("NumLock");
    reveal_strlit("PrintScreen");
    reveal_strlit("Pause");
    reveal_strlit("Menu");
    reveal_strlit("KeypadBegin");
    reveal_strlit("⌃");
    reveal_strlit("⌥");
    reveal_strlit("Shift+");
    if let KeyCode::F(n) = k.code {
        lemma_decimal_u8_len(n as nat);
    }
    assert(key_name(k.code).len() <= 11);
}

/// The close key of a dialog followed by the shared close keys.
pub open spec fn close_label_of(b: KeyBindings, close: KeySpec) -> Seq<char> {
    labels_joined(seq![close] + b.close@, " / "@)
}

pub open spec fn collapse_all_label_of(b: KeyBindings) -> Seq<char> {
    labels_joined(seq![b.tree.collapse_all] + b.tree.collapse_all_aliases@, " / "@)
}

/// The leader key followed by the key pressed after it.
pub open spec fn leader_shortcut(b: KeyBindings, binding: KeySpec) -> Seq<char> {
    key_label(b.leader) + " "@ + key_label(binding)
}

pub open spec fn quick_action_shortcut(b: KeyBindings, action: QuickAction) -> Seq<char> {
    match action {
        QuickAction::CommandLog => leader_shortcut(b, b.leader_command_log),
        QuickAction::ThemePicker => leader_shortcut(b, b.leader_theme),
        QuickAction::ProjectPicker => leader_shortcut(b, b.leader_project),
        QuickAction::ReloadList => key_label(b.reload_list),
        QuickAction::ReloadBoard => key_label(b.reload_list),
        QuickAction::ReloadTimeline => key_label(b.reload_list),
        QuickAction::Board => leader_shortcut(b, b.leader_board),
        QuickAction::List => leader_shortcut(b, b.leader_list),
        QuickAction::Timeline => leader_shortcut(b, b.leader_timeline),
        QuickAction::Shortcuts => key_label(b.open_help),
    }
}

pub open spec fn board_hint(b: KeyBindings) -> Seq<char> {
    key_label(b.tree.focus_filter) + " search | "@ + key_label(b.board_details) + " details | "@
        + key_label(b.reload_list) + " reload | "@ + labels_joined(
        b.board.move_left@ + b.board.move_right@,
        "/"@,
    ) + " columns | "@ + labels_joined(
        resolved(b.board.move_up, b.nav.up@) + resolved(b.board.move_down, b.nav.down@),
        "/"@,
    ) + " cards | "@ + labels_joined(
        resolved(b.board.page_up, b.nav.half_page_up@ + b.nav.page_up@) + resolved(
            b.board.page_down,
            b.nav.half_page_down@ + b.nav.page_down@,
        ),
        "/"@,
    ) + " page | "@ + collapse_all_label_of(b) + "/"@ + key_label(b.tree.expand_all)
        + " groups | "@ + key_label(b.open_help) + " help"@
}

pub open spec fn command_log_hint(b: KeyBindings) -> Seq<char> {
    close_label_of(b, b.command_log.close) + " close | "@ + labels_joined(
        resolved(b.command_log.move_up, b.nav.up@) + resolved(b.command_log.move_down, b.nav.down@)
            + b.nav.arrow_up@ + b.nav.arrow_down@,
        "/"@,
    ) + " move | "@ + labels_joined(
        resolved(b.command_log.half_page_up, b.nav.half_page_up@) + resolved(
            b.command_log.half_page_down,
            b.nav.half_page_down@,
        ) + b.nav.page_up@ + b.nav.page_down@,
        "/"@,
    ) + " page | "@ + key_label(b.open_help) + " help"@
}

pub open spec fn ticket_dialog_hint(b: KeyBindings) -> Seq<char> {
    close_label_of(b, b.close_ticket) + " close | "@ + key_label(b.tabs.previous) + "/"@
        + key_label(b.tabs.next) + " tabs | "@ + key_label(b.open_help) + " help"@
}

pub open spec fn setup_hint(b: KeyBindings) -> Seq<char> {
    key_label(b.setup_next_field) + " next field | "@ + key_label(b.setup_previous_field)
        + " previous field | "@ + key_label(b.setup_submit) + " load issues | "@ + key_label(
        b.setup_quit,
    ) + " quit"@
}

pub open spec fn list_hint(b: KeyBindings) -> Seq<char> {
    key_label(b.tree.focus_filter) + " search | "@ + key_label(b.tree.open_columns)
        + " columns | "@ + key_label(b.tree.open_assignee) + " assignee | "@ + key_label(b.leader)
        + " leader | "@ + key_label(b.quick_switcher) + " actions | "@ + key_label(b.open_help)
        + " help"@
}

pub open spec fn timeline_hint(b: KeyBindings) -> Seq<char> {
    key_label(b.tree.focus_filter) + " search | "@ + labels_joined(
        resolved(b.tree.move_up, b.nav.up@) + resolved(b.tree.move_down, b.nav.down@),
        "/"@,
    ) + " move | "@ + key_label(b.tree.expand) + "/"@ + key_label(b.tree.collapse)
        + " expand/collapse | "@ + key_label(b.tree.expand_all) + "/"@ + collapse_all_label_of(b)
        + " all | "@ + labels_joined(b.nav.scroll_left@ + b.nav.scroll_right@, "/"@) + " scroll | "@
        + key_label(b.leader) + " leader | "@ + key_label(b.open_help) + " help"@
}

impl KeyBindings {
    pub fn open_columns_label(&self) -> (r: String)
        ensures
            r@ == key_label(self.tree.open_columns),
    {
        self.tree.open_columns.label()
    }

    pub fn board_details_label(&self) -> (r: String)
        ensures
            r@ == key_label(self.board_details),
    {
        self.board_details.label()
    }

    pub fn board_group_label(&self) -> (r: String)
        ensures
            r@ == key_label(self.board_group),
    {
        self.board_group.label()
    }

    pub fn open_help_label(&self) -> (r: String)
        ensures
            r@ == key_label(self.open_help),
    {
        self.open_help.label()
    }

    /// Width in cells of the compact "shortcuts" hint: the help key's label,
    /// the word, and a one-cell gap.
    pub fn shortcuts_hint_width(&self) -> (r: u16)
        ensures
            r == key_label(self.open_help).len() + 11,
    {
        let label = self.open_help.label();
        proof {
            lemma_key_label_len(self.open_help);
        }
        let n = label.as_str().unicode_len();
        (n + 11) as u16
    }

    /// Width in cells of the columns trigger: the columns key's label and the
    /// padded word.
    pub fn column_trigger_width(&self) -> (r: u16)
        ensures
            r == key_label(self.tree.open_columns).len() + 9,
    {
        let label = self.open_columns_label();
        proof {
            lemma_key_label_len(self.tree.open_columns);
        }
        let n = label.as_str().unicode_len();
        (n + 9) as u16
    }

    pub(crate) fn close_label(&self, close: KeySpec) -> (r: String)
        ensures
            r@ == close_label_of(*self, close),
    {
        let keys = chain(&[close], self.close.as_slice());
        assert(keys@ =~= seq![close] + self.close@);
        join_labels(keys.as_slice(), " / ")
    }

    pub(crate) fn collapse_all_label(&self) -> (r: String)
        ensures
            r@ == collapse_all_label_of(*self),
    {
        let keys = chain(&[self.tree.collapse_all], self.tree.collapse_all_aliases.as_slice());
        assert(keys@ =~= seq![self.tree.collapse_all] + self.tree.collapse_all_aliases@);
        join_labels(keys.as_slice(), " / ")
    }

    fn leader_shortcut_label(&self, binding: &KeySpec) -> (r: String)
        ensures
            r@ == leader_shortcut(*self, *binding),
    {
        let mut out = self.leader.label();
        out.append(" ");
        out.append(binding.label().as_str());
        out
    }

    /// The keys that run a quick action, as the quick switcher shows them.
    pub fn quick_action_shortcut_label(&self, action: QuickAction) -> (r: String)
        ensures
            r@ == quick_action_shortcut(*self, action),
    {
        match action {
            QuickAction::CommandLog => self.leader_shortcut_label(&self.leader_command_log),
            QuickAction::ThemePicker => self.leader_shortcut_label(&self.leader_theme),
            QuickAction::ProjectPicker => self.leader_shortcut_label(&self.leader_project),
            QuickAction::ReloadList => self.reload_list.label(),
            QuickAction::ReloadBoard => self.reload_list.label(),
            QuickAction::ReloadTimeline => self.reload_list.label(),
            QuickAction::Board => self.leader_shortcut_label(&self.leader_board),
            QuickAction::List => self.leader_shortcut_label(&self.leader_list),
            QuickAction::Timeline => self.leader_shortcut_label(&self.leader_timeline),
            QuickAction::Shortcuts => self.open_help.label(),
        }
    }

    /// The hint line of the board.
    pub fn board_hint_text(&self) -> (r: String)
        ensures
            r@ == board_hint(*self),
    {
        let nav = &self.nav;
        let board = &self.board;
        let columns = chain(board.move_left.as_slice(), board.move_right.as_slice());
        let cards = chain(
            resolve(&board.move_up, nav.up.as_slice()),
            resolve(&board.move_down, nav.down.as_slice()),
        );
        let shared_up = chain(nav.half_page_up.as_slice(), nav.page_up.as_slice());
        let shared_down = chain(nav.half_page_down.as_slice(), nav.page_down.as_slice());
        let page = chain(
            resolve(&board.page_up, shared_up.as_slice()),
            resolve(&board.page_down, shared_down.as_slice()),
        );
        let mut out = self.tree.focus_filter.label();
        out.append(" search | ");
        out.append(self.board_details.label().as_str());
        out.append(" details | ");
        out.append(self.reload_list.label().as_str());
        out.append(" reload | ");
        out.append(join_labels(columns.as_slice(), "/").as_str());
        out.append(" columns | ");
        out.append(join_labels(cards.as_slice(), "/").as_str());
        out.append(" cards | ");
        out.append(join_labels(page.as_slice(), "/").as_str());
        out.append(" page | ");
        out.append(self.collapse_all_label().as_str());
        out.append("/");
        out.append(self.tree.expand_all.label().as_str());
        out.append(" groups | ");
        out.append(self.open_help.label().as_str());
        out.append(" help");
        out
    }

    /// The hint line of the command log.
    pub fn command_log_hint_text(&self) -> (r: String)
        ensures
            r@ == command_log_hint(*self),
    {
        let nav = &self.nav;
        let log = &self.command_log;
        let moves = chain(
            resolve(&log.move_up, nav.up.as_slice()),
            resolve(&log.move_down, nav.down.as_slice()),
        );
        let moves = chain(moves.as_slice(), nav.arrow_up.as_slice());
        let moves = chain(moves.as_slice(), nav.arrow_down.as_slice());
        let pages = chain(
            resolve(&log.half_page_up, nav.half_page_up.as_slice()),
            resolve(&log.half_page_down, nav.half_page_down.as_slice()),
        );
        let pages = chain(pages.as_slice(), nav.page_up.as_slice());
        let pages = chain(pages.as_slice(), nav.page_down.as_slice());
        let mut out = self.close_label(log.close);
        out.append(" close | ");
        out.append(join_labels(moves.as_slice(), "/").as_str());
        out.append(" move | ");
        out.append(join_labels(pages.as_slice(), "/").as_str());
        out.append(" page | ");
        out.append(self.open_help.label().as_str());
        out.append(" help");
        out
    }

    /// The hint line of the ticket dialog.
    pub fn ticket_dialog_hint_text(&self) -> (r: String)
        ensures
            r@ == ticket_dialog_hint(*self),
    {
        let mut out = self.close_label(self.close_ticket);
        out.append(" close | ");
        out.append(self.tabs.previous.label().as_str());
        out.append("/");
        out.append(self.tabs.next.label().as_str());
        out.append(" tabs | ");
        out.append(self.open_help.label().as_str());
        out.append(" help");
        out
    }

    /// The hint line of the setup form.
    pub fn setup_hint_text(&self) -> (r: String)
        ensures
            r@ == setup_hint(*self),
    {
        let mut out = self.setup_next_field.label();
        out.append(" next field | ");
        out.append(self.setup_previous_field.label().as_str());
        out.append(" previous field | ");
        out.append(self.setup_submit.label().as_str());
        out.append(" load issues | ");
        out.append(self.setup_quit.label().as_str());
        out.append(" quit");
        out
    }

    /// The hint line of the issue list.
    pub fn list_hint_text(&self) -> (r: String)
        ensures
            r@ == list_hint(*self),
    {
        let mut out = self.tree.focus_filter.label();
        out.append(" search | ");
        out.append(self.tree.open_columns.label().as_str());
        out.append(" columns | ");
        out.append(self.tree.open_assignee.label().as_str());
        out.append(" assignee | ");
        out.append(self.leader.label().as_str());
        out.append(" leader | ");
        out.append(self.quick_switcher.label().as_str());
        out.append(" actions | ");
        out.append(self.open_help.label().as_str());
        out.append(" help");
        out
    }

    /// The hint line of the timeline.
    pub fn timeline_hint_text(&self) -> (r: String)
        ensures
            r@ == timeline_hint(*self),
    {
        let nav = &self.nav;
        let moves = chain(
            resolve(&self.tree.move_up, nav.up.as_slice()),
            resolve(&self.tree.move_down, nav.down.as_slice()),
        );
        let scroll = chain(nav.scroll_left.as_slice(), nav.scroll_right.as_slice());
        let mut out = self.tree.focus_filter.label();
        out.append(" search | ");
        out.append(join_labels(moves.as_slice(), "/").as_str());
        out.append(" move | ");
        out.append(self.tree.expand.label().as_str());
        out.append("/");
        out.append(self.tree.collapse.label().as_str());
        out.append(" expand/collapse | ");
        out.append(self.tree.expand_all.label().as_str());
        out.append("/");
        out.append(self.collapse_all_label().as_str());
        out.append(" all | ");
        out.append(join_labels(scroll.as_slice(), "/").as_str());
        out.append(" scroll | ");
        out.append(self.leader.label().as_str());
        out.append(" leader | ");
        out.append(self.open_help.label().as_str());
        out.append(" help");
        out
    }
}

} // verus!
