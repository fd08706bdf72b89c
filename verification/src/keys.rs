//! Key presses, and the key specifications that bindings are written in:
//! how a specification matches a press, how it is labelled, and how one is
//! read from the text of a configuration file.
use vstd::prelude::*;
use vstd::string::StringExecFns;
use crate::text::{ascii_lower, spec_ascii_lower, chars_of, chars_eq, trim, trim_chars, push_char};
use crate::models::{decimal, decimal_chars};

verus! {

/// The key of a key press.
#[derive(Debug, Clone, Copy, PartialEq, Eq, Structural)]
pub enum KeyCode {
    Backspace,
    Enter,
    Left,
    Right,
    Up,
    Down,
    Home,
    End,
    PageUp,
    PageDown,
    Tab,
    BackTab,
    Delete,
    Insert,
    F(u8),
    Char(char),
    Null,
    Esc,
    CapsLock,
    ScrollLock,
    NumLock,
    PrintScreen,
    Pause,
    Menu,
    KeypadBegin,
}

/// The modifier keys held during a key press.
#[derive(Debug, Clone, Copy, PartialEq, Eq, Structural)]
pub struct KeyModifiers {
    pub shift: bool,
    pub control: bool,
    pub alt: bool,
    pub super_key: bool,
    pub hyper: bool,
    pub meta: bool,
}

/// A key press: a key and the modifiers held with it.
#[derive(Debug, Clone, Copy, PartialEq, Eq, Structural)]
pub struct KeyEvent {
    pub code: KeyCode,
    pub modifiers: KeyModifiers,
}

/// A key binding: the key and exact modifier set it stands for.
#[derive(Debug, Clone, Copy, PartialEq, Eq, Structural)]
pub struct KeySpec {
    pub code: KeyCode,
    pub modifiers: KeyModifiers,
}

pub open spec fn no_modifiers() -> KeyModifiers {
    KeyModifiers {
        shift: false,
        control: false,
        alt: false,
        super_key: false,
        hyper: false,
        meta: false,
    }
}

pub open spec fn only_shift() -> KeyModifiers {
    KeyModifiers { shift: true, ..no_modifiers() }
}

pub open spec fn only_control() -> KeyModifiers {
    KeyModifiers { control: true, ..no_modifiers() }
}

pub open spec fn only_alt() -> KeyModifiers {
    KeyModifiers { alt: true, ..no_modifiers() }
}

impl KeyModifiers {
    pub fn none() -> (r: Self)
        ensures
            r == no_modifiers(),
    {
        KeyModifiers {
            shift: false,
            control: false,
            alt: false,
            super_key: false,
            hyper: false,
            meta: false,
        }
    }

    pub fn shift_only() -> (r: Self)
        ensures
            r == only_shift(),
    {
        KeyModifiers { shift: true, ..KeyModifiers::none() }
    }

    pub fn control_only() -> (r: Self)
        ensures
            r == only_control(),
    {
        KeyModifiers { control: true, ..KeyModifiers::none() }
    }

    pub fn alt_only() -> (r: Self)
        ensures
            r == only_alt(),
    {
        KeyModifiers { alt: true, ..KeyModifiers::none() }
    }

    /// Whether no modifier is held.
    pub fn is_empty(&self) -> (r: bool)
        ensures
            r == (*self == no_modifiers()),
    {
        !self.shift && !self.control && !self.alt && !self.super_key && !self.hyper && !self.meta
    }
}

impl KeyEvent {
    pub fn new(code: KeyCode, modifiers: KeyModifiers) -> (r: Self)
        ensures
            r.code == code,
            r.modifiers == modifiers,
    {
        KeyEvent { code, modifiers }
    }
}

pub open spec fn is_ascii_lowercase(c: char) -> bool {
    'a' <= c && c <= 'z'
}

pub open spec fn is_ascii_uppercase(c: char) -> bool {
    'A' <= c && c <= 'Z'
}

pub open spec fn is_ascii_alphabetic(c: char) -> bool {
    is_ascii_lowercase(c) || is_ascii_uppercase(c)
}

pub open spec fn is_ascii_alphanumeric(c: char) -> bool {
    is_ascii_alphabetic(c) || ('0' <= c && c <= '9')
}

/// ASCII upper-casing of one character (`char::to_ascii_uppercase`).
pub open spec fn spec_ascii_upper(c: char) -> char {
    if is_ascii_lowercase(c) {
        ((c as u32) - 32) as char
    } else {
        c
    }
}

fn ascii_upper(c: char) -> (r: char)
    ensures
        r == spec_ascii_upper(c),
{
    if 'a' <= c && c <= 'z' {
        let b = (c as u32) - 32;
        (b as u8) as char
    } else {
        c
    }
}

/// The control character that a terminal sends for Ctrl and the lowercase
/// letter `c`.
pub open spec fn control_code(c: char) -> char {
    ((c as u32) - 96) as char
}

fn control_code_for(c: char) -> (r: char)
    requires
        is_ascii_lowercase(c),
    ensures
        r == control_code(c),
{
    let b = (c as u32) - 96;
    (b as u8) as char
}

/// The binding a key press stands for: an uppercase letter is the lowercase
/// letter with Shift added.
pub open spec fn spec_key_of(key: KeyEvent) -> KeySpec {
    match key.code {
        KeyCode::Char(c) => if is_ascii_uppercase(c) {
            KeySpec {
                code: KeyCode::Char(spec_ascii_lower(c)),
                modifiers: KeyModifiers { shift: true, ..key.modifiers },
            }
        } else {
            KeySpec { code: key.code, modifiers: key.modifiers }
        },
        _ => KeySpec { code: key.code, modifiers: key.modifiers },
    }
}

/// When a binding fires for a key press: the press is the binding itself; or
/// the binding is Ctrl with a lowercase letter and the press is that letter
/// (in either case) with Ctrl held, or the bare control character a terminal
/// sends for it; or the binding is an unmodified symbol and the press is the
/// same symbol typed with Shift.
pub open spec fn spec_matches(spec: KeySpec, key: KeyEvent) -> bool {
    ||| spec == spec_key_of(key)
    ||| match (spec.code, key.code) {
        (KeyCode::Char(expected), KeyCode::Char(actual)) => {
            &&& spec.modifiers == only_control()
            &&& is_ascii_lowercase(expected)
            &&& ((key.modifiers.control && spec_ascii_lower(actual) == expected) || (
            key.modifiers == no_modifiers() && actual == control_code(expected)))
        },
        _ => false,
    }
    ||| match (spec.code, key.code) {
        (KeyCode::Char(expected), KeyCode::Char(actual)) => {
            &&& spec.modifiers == no_modifiers()
            &&& key.modifiers == only_shift()
            &&& expected == actual
            &&& !is_ascii_alphanumeric(actual)
        },
        _ => false,
    }
}

/// Ctrl+Q, which always quits, typed with Ctrl or as its bare control
/// character.
pub open spec fn spec_is_ctrl_q(key: KeyEvent) -> bool {
    match key.code {
        KeyCode::Char(c) => ((c == 'q' || c == 'Q') && key.modifiers.control) || (c == '\u{11}'
            && key.modifiers == no_modifiers()),
        _ => false,
    }
}

pub fn is_ctrl_q(key: KeyEvent) -> (r: bool)
    ensures
        r == spec_is_ctrl_q(key),
{
    match key.code {
        KeyCode::Char(c) => ((c == 'q' || c == 'Q') && key.modifiers.control) || (c == '\u{11}'
            && key.modifiers.is_empty()),
        _ => false,
    }
}

impl KeySpec {
    pub fn plain(c: char) -> (r: Self)
        ensures
            r == (KeySpec { code: KeyCode::Char(c), modifiers: no_modifiers() }),
    {
        KeySpec { code: KeyCode::Char(c), modifiers: KeyModifiers::none() }
    }

    pub fn shifted(c: char) -> (r: Self)
        ensures
            r == (KeySpec { code: KeyCode::Char(c), modifiers: only_shift() }),
    {
        KeySpec { code: KeyCode::Char(c), modifiers: KeyModifiers::shift_only() }
    }

    pub fn code(code: KeyCode) -> (r: Self)
        ensures
            r == (KeySpec { code, modifiers: no_modifiers() }),
    {
        KeySpec { code, modifiers: KeyModifiers::none() }
    }

    pub fn code_with_modifiers(code: KeyCode, modifiers: KeyModifiers) -> (r: Self)
        ensures
            r == (KeySpec { code, modifiers }),
    {
        KeySpec { code, modifiers }
    }

    /// The binding a key press stands for.
    pub fn from_event(key: KeyEvent) -> (r: Self)
        ensures
            r == spec_key_of(key),
    {
        match key.code {
            KeyCode::Char(c) => {
                if 'A' <= c && c <= 'Z' {
                    KeySpec {
                        code: KeyCode::Char(ascii_lower(c)),
                        modifiers: KeyModifiers { shift: true, ..key.modifiers },
                    }
                } else {
                    KeySpec { code: key.code, modifiers: key.modifiers }
                }
            },
            _ => KeySpec { code: key.code, modifiers: key.modifiers },
        }
    }

    /// Whether this binding fires for the key press.
    pub fn matches(self, key: KeyEvent) -> (r: bool)
        ensures
            r == spec_matches(self, key),
    {
        if self == KeySpec::from_event(key) {
            return true;
        }
        if let KeyCode::Char(expected) = self.code {
            if let KeyCode::Char(actual) = key.code {
                let m = self.modifiers;
                if m.control && !m.shift && !m.alt && !m.super_key && !m.hyper && !m.meta && 'a'
                    <= expected && expected <= 'z' {
                    if key.modifiers.control && ascii_lower(actual) == expected {
                        return true;
                    }
                    if key.modifiers.is_empty() && actual == control_code_for(expected) {
                        return true;
                    }
                }
                let k = key.modifiers;
                return self.modifiers.is_empty() && k.shift && !k.control && !k.alt
                    && !k.super_key && !k.hyper && !k.meta && expected == actual && !(('a'
                    <= actual && actual <= 'z') || ('A' <= actual && actual <= 'Z') || ('0'
                    <= actual && actual <= '9'));
            }
        }
        false
    }
}

impl From<KeyEvent> for KeySpec {
    fn from(value: KeyEvent) -> (r: Self) {
        KeySpec::from_event(value)
    }
}

impl vstd::std_specs::convert::FromSpecImpl<KeyEvent> for KeySpec {
    open spec fn obeys_from_spec() -> bool {
        true
    }

    open spec fn from_spec(v: KeyEvent) -> KeySpec {
        spec_key_of(v)
    }
}

/// Whether any of the bindings fires for the key press.
pub open spec fn spec_matches_any(bindings: Seq<KeySpec>, key: KeyEvent) -> bool {
    exists|i: int| 0 <= i < bindings.len() && spec_matches(#[trigger] bindings[i], key)
}

pub fn matches_any(bindings: &[KeySpec], key: KeyEvent) -> (r: bool)
    ensures
        r == spec_matches_any(bindings@, key),
{
    let mut i: usize = 0;
    while i < bindings.len()
        invariant
            i <= bindings@.len(),
            forall|j: int| 0 <= j < i ==> !spec_matches(#[trigger] bindings@[j], key),
        decreases bindings@.len() - i,
    {
        if bindings[i].matches(key) {
            return true;
        }
        i = i + 1;
    }
    false
}

/// A binding taken from a key press fires for that press.
pub proof fn lemma_binding_of_press_matches(key: KeyEvent)
    ensures
        spec_matches(spec_key_of(key), key),
{
}

/// The name a binding's key is shown by.
pub open spec fn key_name(code: KeyCode) -> Seq<char> {
    match code {
        KeyCode::Char(c) => if c == ' ' { "Space"@ } else { seq![c] },
        KeyCode::Esc => "Esc"@,
        KeyCode::Enter => "Enter"@,
        KeyCode::Tab => "Tab"@,
        KeyCode::BackTab => "⇧Tab"@,
        KeyCode::Backspace => "Backspace"@,
        KeyCode::Delete => "Delete"@,
        KeyCode::Left => "Left"@,
        KeyCode::Right => "Right"@,
        KeyCode::Up => "Up"@,
        KeyCode::Down => "Down"@,
        KeyCode::Home => "Home"@,
        KeyCode::End => "End"@,
        KeyCode::PageUp => "PageUp"@,
        KeyCode::PageDown => "PageDown"@,
        KeyCode::Insert => "Insert"@,
        KeyCode::F(n) => "F("@ + decimal(n as nat) + ")"@,
        KeyCode::Null => "Null"@,
        KeyCode::CapsLock => "CapsLock"@,
        KeyCode::ScrollLock => "ScrollLock"@,
        KeyCode::NumLock => "NumLock"@,
        KeyCode::PrintScreen => "PrintScreen"@,
        KeyCode::Pause => "Pause"@,
        KeyCode::Menu => "Menu"@,
        KeyCode::KeypadBegin => "KeypadBegin"@,
    }
}

fn key_name_string(code: KeyCode) -> (r: String)
    ensures
        r@ == key_name(code),
{
    let text = match code {
        KeyCode::Char(c) => {
            if c == ' ' {
                "Space"
            } else {
                let mut out = String::new();
                push_char(&mut out, c);
                assert(out@ =~= seq![c]);
                return out;
            }
        },
        KeyCode::Esc => "Esc",
        KeyCode::Enter => "Enter",
        KeyCode::Tab => "Tab",
        KeyCode::BackTab => "⇧Tab",
        KeyCode::Backspace => "Backspace",
        KeyCode::Delete => "Delete",
        KeyCode::Left => "Left",
        KeyCode::Right => "Right",
        KeyCode::Up => "Up",
        KeyCode::Down => "Down",
        KeyCode::Home => "Home",
        KeyCode::End => "End",
        KeyCode::PageUp => "PageUp",
        KeyCode::PageDown => "PageDown",
        KeyCode::Insert => "Insert",
        KeyCode::F(n) => {
            let mut out = String::from_str("F(");
            let digits = decimal_chars(n as u64);
            let mut i: usize = 0;
            while i < digits.len()
                invariant
                    i <= digits@.len(),
                    out@ == "F("@ + digits@.take(i as int),
                decreases digits@.len() - i,
            {
                push_char(&mut out, digits[i]);
                i = i + 1;
                assert(out@ =~= "F("@ + digits@.take(i as int));
            }
            assert(digits@.take(digits@.len() as int) =~= digits@);
            out.append(")");
            return out;
        },
        KeyCode::Null => "Null",
        KeyCode::CapsLock => "CapsLock",
        KeyCode::ScrollLock => "ScrollLock",
        KeyCode::NumLock => "NumLock",
        KeyCode::PrintScreen => "PrintScreen",
        KeyCode::Pause => "Pause",
        KeyCode::Menu => "Menu",
        KeyCode::KeypadBegin => "KeypadBegin",
    };
    String::from_str(text)
}

/// How a Shift binding is shown: a letter in upper case, another character
/// as itself, any other key as `Shift+` and its name.
pub open spec fn shifted_label(code: KeyCode, fallback: Seq<char>) -> Seq<char> {
    match code {
        KeyCode::Char(c) => if is_ascii_alphabetic(c) {
            seq![spec_ascii_upper(c)]
        } else {
            seq![c]
        },
        _ => "Shift+"@ + fallback,
    }
}

/// How a binding is shown: Ctrl as `⌃`, else Alt as `⌥`, else Shift as in
/// [`shifted_label`] (Shift+Tab has its own name), before the key's name.
pub open spec fn key_label(k: KeySpec) -> Seq<char> {
    let key = key_name(k.code);
    if k.modifiers.control {
        "⌃"@ + key
    } else if k.modifiers.alt {
        "⌥"@ + key
    } else if k.modifiers.shift && k.code != KeyCode::BackTab {
        shifted_label(k.code, key)
    } else {
        key
    }
}

impl KeySpec {
    pub fn label(self) -> (r: String)
        ensures
            r@ == key_label(self),
    {
        let key = key_name_string(self.code);
        if self.modifiers.control {
            let mut out = String::from_str("⌃");
            out.append(key.as_str());
            out
        } else if self.modifiers.alt {
            let mut out = String::from_str("⌥");
            out.append(key.as_str());
            out
        } else if self.modifiers.shift && self.code != KeyCode::BackTab {
            match self.code {
                KeyCode::Char(c) => {
                    let mut out = String::new();
                    if ('a' <= c && c <= 'z') || ('A' <= c && c <= 'Z') {
                        push_char(&mut out, ascii_upper(c));
                    } else {
                        push_char(&mut out, c);
                    }
                    assert(out@ =~= shifted_label(self.code, key@));
                    out
                },
                _ => {
                    let mut out = String::from_str("Shift+");
                    out.append(key.as_str());
                    out
                },
            }
        } else {
            key
        }
    }
}

/// Whether `s` begins with `p`.
pub open spec fn starts_with(s: Seq<char>, p: Seq<char>) -> bool {
    p.len() <= s.len() && s.take(p.len() as int) == p
}

fn chars_start_with(s: &Vec<char>, p: &Vec<char>) -> (r: bool)
    ensures
        r == starts_with(s@, p@),
{
    if p.len() > s.len() {
        return false;
    }
    let mut i: usize = 0;
    while i < p.len()
        invariant
            p.len() <= s.len(),
            i <= p.len(),
            forall|j: int| 0 <= j < i ==> s@[j] == p@[j],
        decreases p.len() - i,
    {
        if s[i] != p[i] {
            assert(s@.take(p@.len() as int)[i as int] != p@[i as int]);
            return false;
        }
        i = i + 1;
    }
    assert(s@.take(p@.len() as int) =~= p@);
    true
}

/// The keys a configuration file names by a word.
pub open spec fn named_key(v: Seq<char>) -> Option<KeyCode> {
    if v == "esc"@ {
        Some(KeyCode::Esc)
    } else if v == "enter"@ {
        Some(KeyCode::Enter)
    } else if v == "tab"@ {
        Some(KeyCode::Tab)
    } else if v == "backtab"@ {
        Some(KeyCode::BackTab)
    } else if v == "backspace"@ {
        Some(KeyCode::Backspace)
    } else if v == "delete"@ {
        Some(KeyCode::Delete)
    } else if v == "left"@ {
        Some(KeyCode::Left)
    } else if v == "right"@ {
        Some(KeyCode::Right)
    } else if v == "up"@ {
        Some(KeyCode::Up)
    } else if v == "down"@ {
        Some(KeyCode::Down)
    } else if v == "pageup"@ {
        Some(KeyCode::PageUp)
    } else if v == "pagedown"@ {
        Some(KeyCode::PageDown)
    } else if v == "home"@ {
        Some(KeyCode::Home)
    } else if v == "end"@ {
        Some(KeyCode::End)
    } else if v == "space"@ {
        Some(KeyCode::Char(' '))
    } else {
        None
    }
}

fn is_word(v: &Vec<char>, word: &str) -> (r: bool)
    ensures
        r == (v@ == word@),
{
    let w = chars_of(word);
    chars_eq(v, &w)
}

fn named_key_of(v: &Vec<char>) -> (r: Option<KeyCode>)
    ensures
        r == named_key(v@),
{
    if is_word(v, "esc") {
        Some(KeyCode::Esc)
    } else if is_word(v, "enter") {
        Some(KeyCode::Enter)
    } else if is_word(v, "tab") {
        Some(KeyCode::Tab)
    } else if is_word(v, "backtab") {
        Some(KeyCode::BackTab)
    } else if is_word(v, "backspace") {
        Some(KeyCode::Backspace)
    } else if is_word(v, "delete") {
        Some(KeyCode::Delete)
    } else if is_word(v, "left") {
        Some(KeyCode::Left)
    } else if is_word(v, "right") {
        Some(KeyCode::Right)
    } else if is_word(v, "up") {
        Some(KeyCode::Up)
    } else if is_word(v, "down") {
        Some(KeyCode::Down)
    } else if is_word(v, "pageup") {
        Some(KeyCode::PageUp)
    } else if is_word(v, "pagedown") {
        Some(KeyCode::PageDown)
    } else if is_word(v, "home") {
        Some(KeyCode::Home)
    } else if is_word(v, "end") {
        Some(KeyCode::End)
    } else if is_word(v, "space") {
        Some(KeyCode::Char(' '))
    } else {
        None
    }
}

/// The binding a configuration entry names, after surrounding whitespace is
/// trimmed: `ctrl+` or `shift+` and one character (Shift takes the letter in
/// lower case); a key word such as `esc` or `pageup`; or one character, where
/// an uppercase letter means Shift and the lowercase letter. Anything else
/// names no binding.
pub open spec fn parse_key_spec(raw: Seq<char>) -> Option<KeySpec> {
    let v = trim(raw);
    let ctrl = "ctrl+"@;
    let shift = "shift+"@;
    if starts_with(v, ctrl) && v.len() <= ctrl.len() + 1 {
        if v.len() == ctrl.len() {
            None
        } else {
            Some(KeySpec { code: KeyCode::Char(v[ctrl.len() as int]), modifiers: only_control() })
        }
    } else if starts_with(v, shift) && v.len() <= shift.len() + 1 {
        if v.len() == shift.len() {
            None
        } else {
            Some(
                KeySpec {
                    code: KeyCode::Char(spec_ascii_lower(v[shift.len() as int])),
                    modifiers: only_shift(),
                },
            )
        }
    } else {
        match named_key(v) {
            Some(code) => Some(KeySpec { code, modifiers: no_modifiers() }),
            None => if v.len() == 1 {
                if is_ascii_uppercase(v[0]) {
                    Some(
                        KeySpec {
                            code: KeyCode::Char(spec_ascii_lower(v[0])),
                            modifiers: only_shift(),
                        },
                    )
                } else {
                    Some(KeySpec { code: KeyCode::Char(v[0]), modifiers: no_modifiers() })
                }
            } else {
                None
            },
        }
    }
}

/// Reads one binding from the text of a configuration entry.
pub fn parse_key(value: &str) -> (r: Option<KeySpec>)
    ensures
        r == parse_key_spec(value@),
{
    let raw = chars_of(value);
    let v = trim_chars(&raw);
    let ctrl = chars_of("ctrl+");
    let shift = chars_of("shift+");
    if chars_start_with(&v, &ctrl) && v.len() - ctrl.len() <= 1 {
        if v.len() == ctrl.len() {
            return None;
        }
        return Some(KeySpec::code_with_modifiers(KeyCode::Char(v[ctrl.len()]), KeyModifiers::control_only()));
    }
    if chars_start_with(&v, &shift) && v.len() - shift.len() <= 1 {
        if v.len() == shift.len() {
            return None;
        }
        return Some(KeySpec::shifted(ascii_lower(v[shift.len()])));
    }
    match named_key_of(&v) {
        Some(code) => Some(KeySpec::code(code)),
        None => {
            if v.len() != 1 {
                return None;
            }
            let key = v[0];
            if 'A' <= key && key <= 'Z' {
                Some(KeySpec::shifted(ascii_lower(key)))
            } else {
                Some(KeySpec::plain(key))
            }
        },
    }
}

} // verus!
