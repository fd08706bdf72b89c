//! Reading key bindings from the text of a TOML configuration file: every
//! entry that is present and names a valid binding replaces the default.
use vstd::prelude::*;
use crate::keymap::{KeyBindings, is_default};
use crate::keys::{KeySpec, parse_key, parse_key_spec};

verus! {

/// What a configuration file holds under one key of one section.
#[derive(Debug, Clone, PartialEq, Eq)]
pub enum ConfigValue {
    /// The text is not a TOML table, or the section or the key is absent.
    Missing,
    /// A string.
    Text(String),
    /// An array; each element is its text when it is a string.
    List(Vec<Option<String>>),
    /// Any other kind of value.
    Other,
}

pub enum ConfigValueView {
    Missing,
    Text(Seq<char>),
    List(Seq<Option<Seq<char>>>),
    Other,
}

pub open spec fn opt_text_view(o: Option<String>) -> Option<Seq<char>> {
    match o {
        Some(s) => Some(s@),
        None => None,
    }
}

impl View for ConfigValue {
    type V = ConfigValueView;

    open spec fn view(&self) -> ConfigValueView {
        match self {
            ConfigValue::Missing => ConfigValueView::Missing,
            ConfigValue::Text(s) => ConfigValueView::Text(s@),
            ConfigValue::List(items) => ConfigValueView::List(
                items@.map_values(|o: Option<String>| opt_text_view(o)),
            ),
            ConfigValue::Other => ConfigValueView::Other,
        }
    }
}

/// What `text`, read as a TOML table, holds under `key` in the table
/// `section`.
pub uninterp spec fn toml_setting(text: Seq<char>, section: Seq<char>, key: Seq<char>) -> ConfigValueView;

/// Parses `text` with `toml::from_str` into a `toml::Table`, then looks up
/// `section` with `Map::get` and `key` inside it with `Value::get`, and hands
/// back what it found. The contract claims only that the outcome is a
/// function of the three texts, named [`toml_setting`].
#[verifier::external_body]
fn read_setting(text: &str, section: &str, key: &str) -> (r: ConfigValue)
    ensures
        r@ == toml_setting(text@, section@, key@),
{
    let Ok(table) = toml::from_str::<toml::Table>(text) else {
        return ConfigValue::Missing;
    };
    match table.get(section).and_then(|found| found.get(key)) {
        None => ConfigValue::Missing,
        Some(toml::Value::String(s)) => ConfigValue::Text(s.clone()),
        Some(toml::Value::Array(items)) => ConfigValue::List(
            items.iter().map(|item| item.as_str().map(String::from)).collect(),
        ),
        Some(_) => ConfigValue::Other,
    }
}

/// The bindings named by the string elements of a list, in order, skipping
/// elements that name none.
pub open spec fn parsed_list(items: Seq<Option<Seq<char>>>) -> Seq<KeySpec>
    decreases items.len(),
{
    if items.len() == 0 {
        Seq::empty()
    } else {
        let rest = parsed_list(items.drop_last());
        match items.last() {
            Some(t) => match parse_key_spec(t) {
                Some(k) => rest.push(k),
                None => rest,
            },
            None => rest,
        }
    }
}

/// The bindings a configuration value names: one string, or the strings of
/// an array.
pub open spec fn setting_keys(v: ConfigValueView) -> Seq<KeySpec> {
    match v {
        ConfigValueView::Text(t) => match parse_key_spec(t) {
            Some(k) => seq![k],
            None => Seq::empty(),
        },
        ConfigValueView::List(items) => parsed_list(items),
        _ => Seq::empty(),
    }
}

/// A list of bindings after a configuration value: replaced when the value
/// names at least one binding.
pub open spec fn keys_after(v: ConfigValueView, before: Seq<KeySpec>) -> Seq<KeySpec> {
    if setting_keys(v).len() > 0 {
        setting_keys(v)
    } else {
        before
    }
}

/// An optional list of bindings after a configuration value: set when the
/// value names at least one binding.
pub open spec fn opt_keys_after(
    v: ConfigValueView,
    before: Option<Vec<KeySpec>>,
    after: Option<Vec<KeySpec>>,
) -> bool {
    if setting_keys(v).len() > 0 {
        after is Some && after->0@ == setting_keys(v)
    } else {
        after == before
    }
}

/// A single binding after a configuration value: replaced when the value is
/// a string that names a binding.
pub open spec fn key_after(v: ConfigValueView, before: KeySpec) -> KeySpec {
    match v {
        ConfigValueView::Text(t) => match parse_key_spec(t) {
            Some(k) => k,
            None => before,
        },
        _ => before,
    }
}

/// The bindings a configuration value names, in order.
pub fn setting_key_list(value: &ConfigValue) -> (r: Vec<KeySpec>)
    ensures
        r@ == setting_keys(value@),
{
    let mut out: Vec<KeySpec> = Vec::new();
    match value {
        ConfigValue::Text(s) => {
            if let Some(k) = parse_key(s.as_str()) {
                out.push(k);
            }
        },
        ConfigValue::List(items) => {
            let ghost views = items@.map_values(|o: Option<String>| opt_text_view(o));
            let mut i: usize = 0;
            while i < items.len()
                invariant
                    i <= items@.len(),
                    views == items@.map_values(|o: Option<String>| opt_text_view(o)),
                    out@ == parsed_list(views.take(i as int)),
                decreases items@.len() - i,
            {
                assert(views.take(i as int + 1).drop_last() =~= views.take(i as int));
                if let Some(s) = &items[i] {
                    if let Some(k) = parse_key(s.as_str()) {
                        out.push(k);
                    }
                }
                i = i + 1;
            }
            assert(views.take(items@.len() as int) =~= views);
        },
        _ => {},
    }
    out
}

fn copy_keys(keys: &Vec<KeySpec>) -> (r: Vec<KeySpec>)
    ensures
        r@ == keys@,
{
    let mut out: Vec<KeySpec> = Vec::new();
    let mut i: usize = 0;
    while i < keys.len()
        invariant
            i <= keys@.len(),
            out@ == keys@.take(i as int),
        decreases keys@.len() - i,
    {
        out.push(keys[i]);
        i = i + 1;
        assert(out@ =~= keys@.take(i as int));
    }
    assert(keys@.take(keys@.len() as int) =~= keys@);
    out
}

/// A list of bindings after a configuration value: the value's bindings
/// when it names any, else `before`.
pub fn keys_from_setting(value: &ConfigValue, before: &Vec<KeySpec>) -> (r: Vec<KeySpec>)
    ensures
        r@ == keys_after(value@, before@),
{
    let keys = setting_key_list(value);
    if keys.len() > 0 {
        keys
    } else {
        copy_keys(before)
    }
}

/// A single binding after a configuration value: the binding a string value
/// names, else `before`.
pub fn key_from_setting(value: &ConfigValue, before: KeySpec) -> (r: KeySpec)
    ensures
        r == key_after(value@, before),
{
    if let ConfigValue::Text(s) = value {
        if let Some(k) = parse_key(s.as_str()) {
            return k;
        }
    }
    before
}

fn set_keys(text: &str, section: &str, key: &str, destination: &mut Vec<KeySpec>)
    ensures
        final(destination)@ == keys_after(toml_setting(text@, section@, key@), old(destination)@),
{
    let value = read_setting(text, section, key);
    *destination = keys_from_setting(&value, destination);
}

fn set_keys_opt(text: &str, section: &str, key: &str, destination: &mut Option<Vec<KeySpec>>)
    ensures
        opt_keys_after(toml_setting(text@, section@, key@), *old(destination), *final(destination)),
{
    let value = read_setting(text, section, key);
    let keys = setting_key_list(&value);
    if keys.len() > 0 {
        *destination = Some(keys);
    }
}

fn set_key(text: &str, section: &str, key: &str, destination: &mut KeySpec)
    ensures
        *final(destination) == key_after(toml_setting(text@, section@, key@), *old(destination)),
{
    let value = read_setting(text, section, key);
    *destination = key_from_setting(&value, *destination);
}

/// `after` is `before` with every entry of the configuration text applied.
pub open spec fn config_applied(before: KeyBindings, after: KeyBindings, text: Seq<char>) -> bool {
    &&& after.nav.up@ == keys_after(toml_setting(text, "nav"@, "up"@), before.nav.up@)
    &&& after.nav.down@ == keys_after(toml_setting(text, "nav"@, "down"@), before.nav.down@)
    &&& after.nav.half_page_up@ == keys_after(toml_setting(text, "nav"@, "half_page_up"@), before.nav.half_page_up@)
    &&& after.nav.half_page_down@ == keys_after(toml_setting(text, "nav"@, "half_page_down"@), before.nav.half_page_down@)
    &&& after.nav.page_up@ == keys_after(toml_setting(text, "nav"@, "page_up"@), before.nav.page_up@)
    &&& after.nav.page_down@ == keys_after(toml_setting(text, "nav"@, "page_down"@), before.nav.page_down@)
    &&& after.nav.goto_start_prefix@ == keys_after(toml_setting(text, "nav"@, "goto_start_prefix"@), before.nav.goto_start_prefix@)
    &&& after.nav.goto_end@ == keys_after(toml_setting(text, "nav"@, "goto_end"@), before.nav.goto_end@)
    &&& after.nav.home@ == keys_after(toml_setting(text, "nav"@, "home"@), before.nav.home@)
    &&& after.nav.end@ == keys_after(toml_setting(text, "nav"@, "end"@), before.nav.end@)
    &&& after.nav.arrow_up@ == keys_after(toml_setting(text, "nav"@, "arrow_up"@), before.nav.arrow_up@)
    &&& after.nav.arrow_down@ == keys_after(toml_setting(text, "nav"@, "arrow_down"@), before.nav.arrow_down@)
    &&& after.nav.scroll_left@ == keys_after(toml_setting(text, "nav"@, "scroll_left"@), before.nav.scroll_left@)
    &&& after.nav.scroll_right@ == keys_after(toml_setting(text, "nav"@, "scroll_right"@), before.nav.scroll_right@)
    &&& after.close@ == keys_after(toml_setting(text, "global"@, "close"@), before.close@)
    &&& after.quit == key_after(toml_setting(text, "global"@, "quit"@), before.quit)
    &&& after.reload_list == key_after(toml_setting(text, "global"@, "reload_list"@), before.reload_list)
    &&& after.board_details == key_after(toml_setting(text, "board"@, "details"@), before.board_details)
    &&& after.board_group == key_after(toml_setting(text, "board"@, "group"@), before.board_group)
    &&& after.board.move_ticket_left@ == keys_after(toml_setting(text, "board"@, "move_ticket_left"@), before.board.move_ticket_left@)
    &&& after.board.move_ticket_right@ == keys_after(toml_setting(text, "board"@, "move_ticket_right"@), before.board.move_ticket_right@)
    &&& after.board.move_ticket_up@ == keys_after(toml_setting(text, "board"@, "move_ticket_up"@), before.board.move_ticket_up@)
    &&& after.board.move_ticket_down@ == keys_after(toml_setting(text, "board"@, "move_ticket_down"@), before.board.move_ticket_down@)
    &&& after.board.toggle_move_mode == key_after(toml_setting(text, "board"@, "toggle_move_mode"@), before.board.toggle_move_mode)
    &&& after.board.place_move_mode == key_after(toml_setting(text, "board"@, "place_move_mode"@), before.board.place_move_mode)
    &&& after.leader == key_after(toml_setting(text, "global"@, "leader"@), before.leader)
    &&& after.leader_command_log == key_after(toml_setting(text, "leader"@, "command_log"@), before.leader_command_log)
    &&& after.leader_project == key_after(toml_setting(text, "leader"@, "project"@), before.leader_project)
    &&& after.leader_theme == key_after(toml_setting(text, "leader"@, "theme"@), before.leader_theme)
    &&& after.leader_board == key_after(toml_setting(text, "leader"@, "board"@), before.leader_board)
    &&& after.leader_list == key_after(toml_setting(text, "leader"@, "list"@), before.leader_list)
    &&& after.leader_timeline == key_after(toml_setting(text, "leader"@, "timeline"@), before.leader_timeline)
    &&& after.quick_switcher == key_after(toml_setting(text, "global"@, "quick_switcher"@), before.quick_switcher)
    &&& after.open_ticket == key_after(toml_setting(text, "ticket"@, "open"@), before.open_ticket)
    &&& after.close_ticket == key_after(toml_setting(text, "ticket"@, "close"@), before.close_ticket)
    &&& after.command_log.close == key_after(toml_setting(text, "command_log"@, "close"@), before.command_log.close)
    &&& opt_keys_after(toml_setting(text, "command_log"@, "move_up"@), before.command_log.move_up, after.command_log.move_up)
    &&& opt_keys_after(toml_setting(text, "command_log"@, "move_down"@), before.command_log.move_down, after.command_log.move_down)
    &&& opt_keys_after(toml_setting(text, "command_log"@, "half_page_up"@), before.command_log.half_page_up, after.command_log.half_page_up)
    &&& opt_keys_after(toml_setting(text, "command_log"@, "half_page_down"@), before.command_log.half_page_down, after.command_log.half_page_down)
    &&& opt_keys_after(toml_setting(text, "command_log"@, "first"@), before.command_log.first, after.command_log.first)
    &&& opt_keys_after(toml_setting(text, "command_log"@, "last"@), before.command_log.last, after.command_log.last)
    &&& after.open_help == key_after(toml_setting(text, "global"@, "open_help"@), before.open_help)
    &&& after.help.close == key_after(toml_setting(text, "help"@, "close"@), before.help.close)
    &&& opt_keys_after(toml_setting(text, "help"@, "move_up"@), before.help.move_up, after.help.move_up)
    &&& opt_keys_after(toml_setting(text, "help"@, "move_down"@), before.help.move_down, after.help.move_down)
    &&& after.dropdown.close == key_after(toml_setting(text, "dropdown"@, "close"@), before.dropdown.close)
    &&& after.dropdown.focus_filter == key_after(toml_setting(text, "dropdown"@, "focus_filter"@), before.dropdown.focus_filter)
    &&& after.dropdown.submit == key_after(toml_setting(text, "dropdown"@, "submit"@), before.dropdown.submit)
    &&& after.dropdown.toggle_selected == key_after(toml_setting(text, "dropdown"@, "toggle_selected"@), before.dropdown.toggle_selected)
    &&& after.dropdown.submit_from_filter == key_after(toml_setting(text, "dropdown"@, "submit_from_filter"@), before.dropdown.submit_from_filter)
    &&& after.dropdown.toggle_from_filter == key_after(toml_setting(text, "dropdown"@, "toggle_from_filter"@), before.dropdown.toggle_from_filter)
    &&& after.dropdown.filter_move_up == key_after(toml_setting(text, "dropdown"@, "filter_move_up"@), before.dropdown.filter_move_up)
    &&& after.dropdown.filter_move_down == key_after(toml_setting(text, "dropdown"@, "filter_move_down"@), before.dropdown.filter_move_down)
    &&& after.dropdown.filter_clear == key_after(toml_setting(text, "dropdown"@, "filter_clear"@), before.dropdown.filter_clear)
    &&& opt_keys_after(toml_setting(text, "dropdown"@, "move_up"@), before.dropdown.move_up, after.dropdown.move_up)
    &&& opt_keys_after(toml_setting(text, "dropdown"@, "move_down"@), before.dropdown.move_down, after.dropdown.move_down)
    &&& opt_keys_after(toml_setting(text, "dropdown"@, "half_page_up"@), before.dropdown.half_page_up, after.dropdown.half_page_up)
    &&& opt_keys_after(toml_setting(text, "dropdown"@, "half_page_down"@), before.dropdown.half_page_down, after.dropdown.half_page_down)
    &&& opt_keys_after(toml_setting(text, "dropdown"@, "first"@), before.dropdown.first, after.dropdown.first)
    &&& opt_keys_after(toml_setting(text, "dropdown"@, "last"@), before.dropdown.last, after.dropdown.last)
    &&& opt_keys_after(toml_setting(text, "help"@, "page_up"@), before.help.page_up, after.help.page_up)
    &&& opt_keys_after(toml_setting(text, "help"@, "page_down"@), before.help.page_down, after.help.page_down)
    &&& opt_keys_after(toml_setting(text, "help"@, "first"@), before.help.first, after.help.first)
    &&& opt_keys_after(toml_setting(text, "help"@, "last"@), before.help.last, after.help.last)
    &&& after.tabs.previous == key_after(toml_setting(text, "tabs"@, "previous_tab"@), before.tabs.previous)
    &&& after.tabs.next == key_after(toml_setting(text, "tabs"@, "next_tab"@), before.tabs.next)
    &&& after.board.move_left@ == keys_after(toml_setting(text, "board"@, "move_left"@), before.board.move_left@)
    &&& after.board.move_right@ == keys_after(toml_setting(text, "board"@, "move_right"@), before.board.move_right@)
    &&& opt_keys_after(toml_setting(text, "board"@, "move_up"@), before.board.move_up, after.board.move_up)
    &&& opt_keys_after(toml_setting(text, "board"@, "move_down"@), before.board.move_down, after.board.move_down)
    &&& opt_keys_after(toml_setting(text, "board"@, "page_up"@), before.board.page_up, after.board.page_up)
    &&& opt_keys_after(toml_setting(text, "board"@, "page_down"@), before.board.page_down, after.board.page_down)
    &&& opt_keys_after(toml_setting(text, "board"@, "first"@), before.board.first, after.board.first)
    &&& opt_keys_after(toml_setting(text, "board"@, "last"@), before.board.last, after.board.last)
    &&& opt_keys_after(toml_setting(text, "tree"@, "move_up"@), before.tree.move_up, after.tree.move_up)
    &&& opt_keys_after(toml_setting(text, "tree"@, "move_down"@), before.tree.move_down, after.tree.move_down)
    &&& opt_keys_after(toml_setting(text, "tree"@, "half_page_up"@), before.tree.half_page_up, after.tree.half_page_up)
    &&& opt_keys_after(toml_setting(text, "tree"@, "half_page_down"@), before.tree.half_page_down, after.tree.half_page_down)
    &&& after.tree.collapse == key_after(toml_setting(text, "tree"@, "collapse"@), before.tree.collapse)
    &&& after.tree.expand == key_after(toml_setting(text, "tree"@, "expand"@), before.tree.expand)
    &&& after.tree.toggle_expand == key_after(toml_setting(text, "tree"@, "toggle_expand"@), before.tree.toggle_expand)
    &&& after.tree.collapse_all == key_after(toml_setting(text, "tree"@, "collapse_all"@), before.tree.collapse_all)
    &&& after.tree.collapse_all_aliases@ == keys_after(toml_setting(text, "tree"@, "collapse_all_aliases"@), before.tree.collapse_all_aliases@)
    &&& after.tree.expand_all == key_after(toml_setting(text, "tree"@, "expand_all"@), before.tree.expand_all)
    &&& after.tree.open_columns == key_after(toml_setting(text, "tree"@, "open_columns"@), before.tree.open_columns)
    &&& after.tree.yank_issue_url == key_after(
        toml_setting(text, "tree"@, "yank_issue_url"@),
        key_after(toml_setting(text, "tree"@, "copy_issue_url"@), before.tree.yank_issue_url),
    )
    &&& after.tree.open_assignee == key_after(toml_setting(text, "tree"@, "open_assignee"@), before.tree.open_assignee)
    &&& after.tree.assign_to_me == key_after(toml_setting(text, "tree"@, "assign_to_me"@), before.tree.assign_to_me)
    &&& after.tree.unassign == key_after(toml_setting(text, "tree"@, "unassign"@), before.tree.unassign)
    &&& opt_keys_after(toml_setting(text, "tree"@, "go_to_end"@), before.tree.go_to_end, after.tree.go_to_end)
    &&& opt_keys_after(toml_setting(text, "tree"@, "go_to_start_prefix"@), before.tree.go_to_start_prefix, after.tree.go_to_start_prefix)
    &&& after.tree.focus_filter == key_after(toml_setting(text, "tree"@, "search"@), before.tree.focus_filter)
    &&& after.setup_next_field == key_after(toml_setting(text, "setup"@, "next_field"@), before.setup_next_field)
    &&& after.setup_previous_field == key_after(toml_setting(text, "setup"@, "previous_field"@), before.setup_previous_field)
    &&& after.setup_submit == key_after(toml_setting(text, "setup"@, "submit"@), before.setup_submit)
    &&& after.setup_backspace == key_after(toml_setting(text, "setup"@, "backspace"@), before.setup_backspace)
    &&& after.setup_quit == key_after(toml_setting(text, "setup"@, "quit"@), before.setup_quit)
}

impl KeyBindings {
    /// The default bindings with every entry of a TOML configuration text
    /// applied; text that is not a TOML table leaves all defaults in place.
    #[verifier::rlimit(40)]
    pub fn from_toml_str(text: &str) -> (r: Self)
        ensures
            exists|d: KeyBindings| is_default(d) && config_applied(d, r, text@),
    {
        let mut bindings = Self::default();
        let ghost d = bindings;
        set_keys(text, "nav", "up", &mut bindings.nav.up);
        set_keys(text, "nav", "down", &mut bindings.nav.down);
        set_keys(text, "nav", "half_page_up", &mut bindings.nav.half_page_up);
        set_keys(text, "nav", "half_page_down", &mut bindings.nav.half_page_down);
        set_keys(text, "nav", "page_up", &mut bindings.nav.page_up);
        set_keys(text, "nav", "page_down", &mut bindings.nav.page_down);
        set_keys(text, "nav", "goto_start_prefix", &mut bindings.nav.goto_start_prefix);
        set_keys(text, "nav", "goto_end", &mut bindings.nav.goto_end);
        set_keys(text, "nav", "home", &mut bindings.nav.home);
        set_keys(text, "nav", "end", &mut bindings.nav.end);
        set_keys(text, "nav", "arrow_up", &mut bindings.nav.arrow_up);
        set_keys(text, "nav", "arrow_down", &mut bindings.nav.arrow_down);
        set_keys(text, "nav", "scroll_left", &mut bindings.nav.scroll_left);
        set_keys(text, "nav", "scroll_right", &mut bindings.nav.scroll_right);
        set_keys(text, "global", "close", &mut bindings.close);
        set_key(text, "global", "quit", &mut bindings.quit);
        set_key(text, "global", "reload_list", &mut bindings.reload_list);
        set_key(text, "board", "details", &mut bindings.board_details);
        set_key(text, "board", "group", &mut bindings.board_group);
        set_keys(text, "board", "move_ticket_left", &mut bindings.board.move_ticket_left);
        set_keys(text, "board", "move_ticket_right", &mut bindings.board.move_ticket_right);
        set_keys(text, "board", "move_ticket_up", &mut bindings.board.move_ticket_up);
        set_keys(text, "board", "move_ticket_down", &mut bindings.board.move_ticket_down);
        set_key(text, "board", "toggle_move_mode", &mut bindings.board.toggle_move_mode);
        set_key(text, "board", "place_move_mode", &mut bindings.board.place_move_mode);
        set_key(text, "global", "leader", &mut bindings.leader);
        set_key(text, "leader", "command_log", &mut bindings.leader_command_log);
        set_key(text, "leader", "project", &mut bindings.leader_project);
        set_key(text, "leader", "theme", &mut bindings.leader_theme);
        set_key(text, "leader", "board", &mut bindings.leader_board);
        set_key(text, "leader", "list", &mut bindings.leader_list);
        set_key(text, "leader", "timeline", &mut bindings.leader_timeline);
        set_key(text, "global", "quick_switcher", &mut bindings.quick_switcher);
        set_key(text, "ticket", "open", &mut bindings.open_ticket);
        set_key(text, "ticket", "close", &mut bindings.close_ticket);
        set_key(text, "command_log", "close", &mut bindings.command_log.close);
        set_keys_opt(text, "command_log", "move_up", &mut bindings.command_log.move_up);
        set_keys_opt(text, "command_log", "move_down", &mut bindings.command_log.move_down);
        set_keys_opt(text, "command_log", "half_page_up", &mut bindings.command_log.half_page_up);
        set_keys_opt(text, "command_log", "half_page_down", &mut bindings.command_log.half_page_down);
        set_keys_opt(text, "command_log", "first", &mut bindings.command_log.first);
        set_keys_opt(text, "command_log", "last", &mut bindings.command_log.last);
        set_key(text, "global", "open_help", &mut bindings.open_help);
        set_key(text, "help", "close", &mut bindings.help.close);
        set_keys_opt(text, "help", "move_up", &mut bindings.help.move_up);
        set_keys_opt(text, "help", "move_down", &mut bindings.help.move_down);
        set_key(text, "dropdown", "close", &mut bindings.dropdown.close);
        set_key(text, "dropdown", "focus_filter", &mut bindings.dropdown.focus_filter);
        set_key(text, "dropdown", "submit", &mut bindings.dropdown.submit);
        set_key(text, "dropdown", "toggle_selected", &mut bindings.dropdown.toggle_selected);
        set_key(text, "dropdown", "submit_from_filter", &mut bindings.dropdown.submit_from_filter);
        set_key(text, "dropdown", "toggle_from_filter", &mut bindings.dropdown.toggle_from_filter);
        set_key(text, "dropdown", "filter_move_up", &mut bindings.dropdown.filter_move_up);
        set_key(text, "dropdown", "filter_move_down", &mut bindings.dropdown.filter_move_down);
        set_key(text, "dropdown", "filter_clear", &mut bindings.dropdown.filter_clear);
        set_keys_opt(text, "dropdown", "move_up", &mut bindings.dropdown.move_up);
        set_keys_opt(text, "dropdown", "move_down", &mut bindings.dropdown.move_down);
        set_keys_opt(text, "dropdown", "half_page_up", &mut bindings.dropdown.half_page_up);
        set_keys_opt(text, "dropdown", "half_page_down", &mut bindings.dropdown.half_page_down);
        set_keys_opt(text, "dropdown", "first", &mut bindings.dropdown.first);
        set_keys_opt(text, "dropdown", "last", &mut bindings.dropdown.last);
        set_keys_opt(text, "help", "page_up", &mut bindings.help.page_up);
        set_keys_opt(text, "help", "page_down", &mut bindings.help.page_down);
        set_keys_opt(text, "help", "first", &mut bindings.help.first);
        set_keys_opt(text, "help", "last", &mut bindings.help.last);
        set_key(text, "tabs", "previous_tab", &mut bindings.tabs.previous);
        set_key(text, "tabs", "next_tab", &mut bindings.tabs.next);
        set_keys(text, "board", "move_left", &mut bindings.board.move_left);
        set_keys(text, "board", "move_right", &mut bindings.board.move_right);
        set_keys_opt(text, "board", "move_up", &mut bindings.board.move_up);
        set_keys_opt(text, "board", "move_down", &mut bindings.board.move_down);
        set_keys_opt(text, "board", "page_up", &mut bindings.board.page_up);
        set_keys_opt(text, "board", "page_down", &mut bindings.board.page_down);
        set_keys_opt(text, "board", "first", &mut bindings.board.first);
        set_keys_opt(text, "board", "last", &mut bindings.board.last);
        set_keys_opt(text, "tree", "move_up", &mut bindings.tree.move_up);
        set_keys_opt(text, "tree", "move_down", &mut bindings.tree.move_down);
        set_keys_opt(text, "tree", "half_page_up", &mut bindings.tree.half_page_up);
        set_keys_opt(text, "tree", "half_page_down", &mut bindings.tree.half_page_down);
        set_key(text, "tree", "collapse", &mut bindings.tree.collapse);
        set_key(text, "tree", "expand", &mut bindings.tree.expand);
        set_key(text, "tree", "toggle_expand", &mut bindings.tree.toggle_expand);
        set_key(text, "tree", "collapse_all", &mut bindings.tree.collapse_all);
        set_keys(text, "tree", "collapse_all_aliases", &mut bindings.tree.collapse_all_aliases);
        set_key(text, "tree", "expand_all", &mut bindings.tree.expand_all);
        set_key(text, "tree", "open_columns", &mut bindings.tree.open_columns);
        set_key(text, "tree", "copy_issue_url", &mut bindings.tree.yank_issue_url);
        set_key(text, "tree", "yank_issue_url", &mut bindings.tree.yank_issue_url);
        set_key(text, "tree", "open_assignee", &mut bindings.tree.open_assignee);
        set_key(text, "tree", "assign_to_me", &mut bindings.tree.assign_to_me);
        set_key(text, "tree", "unassign", &mut bindings.tree.unassign);
        set_keys_opt(text, "tree", "go_to_end", &mut bindings.tree.go_to_end);
        set_keys_opt(text, "tree", "go_to_start_prefix", &mut bindings.tree.go_to_start_prefix);
        set_key(text, "tree", "search", &mut bindings.tree.focus_filter);
        set_key(text, "setup", "next_field", &mut bindings.setup_next_field);
        set_key(text, "setup", "previous_field", &mut bindings.setup_previous_field);
        set_key(text, "setup", "submit", &mut bindings.setup_submit);
        set_key(text, "setup", "backspace", &mut bindings.setup_backspace);
        set_key(text, "setup", "quit", &mut bindings.setup_quit);
        assert(config_applied(d, bindings, text@));
        bindings
    }
}

} // verus!
