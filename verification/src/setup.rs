//! The first-run form that collects the Jira credentials, one line per
//! credential, each with its own cursor.
use vstd::prelude::*;
use vstd::string::StrSliceExecFns;
use crate::config::{credentials_complete, JiraCredentials};
use crate::input::{
    self, delete_backwards, delete_forwards, delete_to_end, delete_to_start, delete_word_left,
    delete_word_right, insert_char, move_left, move_right, move_word_left, move_word_right,
    word_left, word_right,
};
use crate::text::{chars_of, string_from_chars, trim, trim_chars};

verus! {

#[derive(Debug, Clone, Copy, PartialEq, Eq, Structural)]
pub enum SetupAction {
    NextField,
    PreviousField,
    Submit,
    Backspace,
    Quit,
    Text(char),
    NoOp,
    MoveCursorStart,
    MoveCursorEnd,
    Clear,
    MoveCursorWordLeft,
    MoveCursorWordRight,
    DeleteWordLeft,
    DeleteWordRight,
    MoveCursorLeft,
    MoveCursorRight,
    DeleteToEnd,
    DeleteToStart,
    Delete,
}

#[derive(Debug, Clone, Copy, PartialEq, Eq, Structural)]
pub enum CredentialField {
    Site,
    Email,
    ApiKey,
    DefaultProject,
}

/// The field at position `i` of the form, in display order.
pub open spec fn field_at(i: int) -> CredentialField {
    if i == 0 {
        CredentialField::Site
    } else if i == 1 {
        CredentialField::Email
    } else if i == 2 {
        CredentialField::ApiKey
    } else {
        CredentialField::DefaultProject
    }
}

impl CredentialField {
    pub open spec fn label_spec(self) -> &'static str {
        match self {
            CredentialField::Site => "Jira site",
            CredentialField::Email => "Email",
            CredentialField::ApiKey => "API token",
            CredentialField::DefaultProject => "Project key",
        }
    }

    pub fn label(self) -> (r: &'static str)
        ensures
            r == self.label_spec(),
    {
        match self {
            CredentialField::Site => "Jira site",
            CredentialField::Email => "Email",
            CredentialField::ApiKey => "API token",
            CredentialField::DefaultProject => "Project key",
        }
    }
}

/// What a form action asks of the application beyond editing the form.
#[derive(Debug, Clone, Copy, PartialEq, Eq, Structural)]
pub enum SetupCommand {
    /// The form was edited (or nothing happened).
    Edited,
    /// Sign in with the credentials entered.
    Submit,
    /// Leave the application.
    Quit,
}

/// The credential form: four lines of text and a cursor in each.
#[derive(Clone, PartialEq, Eq)]
pub struct CredentialForm {
    site: String,
    email: String,
    api_key: String,
    default_project: String,
    active_field: usize,
    cursors: [usize; 4],
}

pub struct FormView {
    pub values: Seq<Seq<char>>,
    pub cursors: Seq<nat>,
    pub active: nat,
}

impl View for CredentialForm {
    type V = FormView;

    closed spec fn view(&self) -> FormView {
        FormView {
            values: seq![self.site@, self.email@, self.api_key@, self.default_project@],
            cursors: self.cursors@.map_values(|c: usize| c as nat),
            active: self.active_field as nat,
        }
    }
}

/// A well-formed form: a field is active, and every cursor lies within its
/// line, whose length leaves room for typing.
pub open spec fn form_wf(f: FormView) -> bool {
    &&& f.values.len() == 4
    &&& f.cursors.len() == 4
    &&& f.active < 4
    &&& forall|i: int| 0 <= i < 4 ==> #[trigger] f.cursors[i] <= f.values[i].len()
}

/// What an editing action does to one line and its cursor.
pub open spec fn edit_line(s: Seq<char>, c: nat, action: SetupAction) -> (Seq<char>, nat) {
    match action {
        SetupAction::Text(ch) => (if c >= s.len() { s.push(ch) } else { s.insert(c as int, ch) }, c + 1),
        SetupAction::Backspace => if c == 0 {
            (s, c)
        } else {
            (if c - 1 < s.len() { s.remove(c - 1) } else { s }, (c - 1) as nat)
        },
        SetupAction::MoveCursorStart => (s, 0),
        SetupAction::MoveCursorEnd => (s, s.len()),
        SetupAction::Clear => (Seq::empty(), 0),
        SetupAction::MoveCursorWordLeft => (s, word_left(s, c as int) as nat),
        SetupAction::MoveCursorWordRight => (s, if c >= s.len() { c } else { word_right(s, c as int) as nat }),
        SetupAction::DeleteWordLeft => {
            let nc: nat = if c == 0 { 0 } else { word_left(s, c as int) as nat };
            (s.take(nc as int) + s.skip(c as int), nc)
        },
        SetupAction::DeleteWordRight => (
            if c < s.len() { s.take(c as int) + s.skip(word_right(s, c as int)) } else { s },
            c,
        ),
        SetupAction::MoveCursorLeft => (s, if c > 0 { (c - 1) as nat } else { 0 }),
        SetupAction::MoveCursorRight => (s, if c < s.len() { c + 1 } else { c }),
        SetupAction::DeleteToEnd => (if c < s.len() { s.take(c as int) } else { s }, c),
        SetupAction::DeleteToStart => (if c < s.len() { s.skip(c as int) } else { Seq::empty() }, 0),
        SetupAction::Delete => (if c < s.len() { s.remove(c as int) } else { s }, c),
        _ => (s, c),
    }
}

/// What an action does to the form: field switches wrap around, Submit and
/// Quit leave the form as it is, and edits go to the active line.
pub open spec fn form_step(f: FormView, action: SetupAction) -> FormView {
    match action {
        SetupAction::NextField => FormView { active: ((f.active + 1) % 4) as nat, ..f },
        SetupAction::PreviousField => FormView { active: if f.active == 0 { 3 } else { (f.active - 1) as nat }, ..f },
        SetupAction::Submit | SetupAction::Quit | SetupAction::NoOp => f,
        _ => {
            let (s, c) = edit_line(f.values[f.active as int], f.cursors[f.active as int], action);
            FormView { values: f.values.update(f.active as int, s), cursors: f.cursors.update(f.active as int, c), ..f }
        },
    }
}

/// Applies an editing action to one line and its cursor.
fn edit(s: &mut String, cursor: &mut usize, action: SetupAction)
    requires
        *old(cursor) <= old(s)@.len(),
        old(s)@.len() < usize::MAX,
    ensures
        (final(s)@, *final(cursor) as nat) == edit_line(old(s)@, *old(cursor) as nat, action),
        *final(cursor) <= final(s)@.len(),
{
    proof {
        let c = *old(cursor) as int;
        let v = old(s)@;
        input::lemma_skip_left_bounds(v, c, true);
        input::lemma_skip_left_bounds(v, input::skip_left(v, c, true), false);
        input::lemma_skip_right_bounds(v, c, true);
        input::lemma_skip_right_bounds(v, input::skip_right(v, c, true), false);
    }
    match action {
        SetupAction::Text(c) => insert_char(s, cursor, c),
        SetupAction::Backspace => delete_backwards(s, cursor),
        SetupAction::MoveCursorStart => {
            *cursor = 0;
        },
        SetupAction::MoveCursorEnd => {
            *cursor = s.unicode_len();
        },
        SetupAction::Clear => {
            *s = String::new();
            *cursor = 0;
        },
        SetupAction::MoveCursorWordLeft => move_word_left(s.as_str(), cursor),
        SetupAction::MoveCursorWordRight => move_word_right(s.as_str(), cursor),
        SetupAction::DeleteWordLeft => delete_word_left(s, cursor),
        SetupAction::DeleteWordRight => delete_word_right(s, *cursor),
        SetupAction::MoveCursorLeft => move_left(cursor),
        SetupAction::MoveCursorRight => move_right(s.as_str(), cursor),
        SetupAction::DeleteToEnd => delete_to_end(s, *cursor),
        SetupAction::DeleteToStart => delete_to_start(s, cursor),
        SetupAction::Delete => delete_forwards(s, *cursor),
        _ => {},
    }
}

impl Default for CredentialForm {
    fn default() -> (r: Self)
        ensures
            r@.values == seq![Seq::<char>::empty(), Seq::<char>::empty(), Seq::<char>::empty(), Seq::<char>::empty()],
            r@.cursors == seq![0nat, 0nat, 0nat, 0nat],
            r@.active == 0,
            r.wf(),
    {
        let r = CredentialForm {
            site: String::new(),
            email: String::new(),
            api_key: String::new(),
            default_project: String::new(),
            active_field: 0,
            cursors: [0, 0, 0, 0],
        };
        assert(r@.cursors =~= seq![0nat, 0nat, 0nat, 0nat]);
        r
    }
}

impl CredentialForm {
    pub closed spec fn wf(&self) -> bool {
        form_wf(self@)
    }

    pub proof fn lemma_wf(&self)
        ensures
            self.wf() <==> form_wf(self@),
    {
    }

    /// The field being edited.
    pub fn active_field(&self) -> (r: CredentialField)
        requires
            self.wf(),
        ensures
            r == field_at(self@.active as int),
    {
        if self.active_field == 0 {
            CredentialField::Site
        } else if self.active_field == 1 {
            CredentialField::Email
        } else if self.active_field == 2 {
            CredentialField::ApiKey
        } else {
            CredentialField::DefaultProject
        }
    }

    /// Every field with its current text, in display order.
    pub fn fields(&self) -> (r: [(CredentialField, &str); 4])
        ensures
            r@.len() == 4,
            forall|i: int| 0 <= i < 4 ==> (#[trigger] r@[i]).0 == field_at(i) && r@[i].1@ == self@.values[i],
    {
        [
            (CredentialField::Site, self.site.as_str()),
            (CredentialField::Email, self.email.as_str()),
            (CredentialField::ApiKey, self.api_key.as_str()),
            (CredentialField::DefaultProject, self.default_project.as_str()),
        ]
    }

    /// The cursor of every field, in display order.
    pub fn cursors(&self) -> (r: [usize; 4])
        ensures
            forall|i: int| 0 <= i < 4 ==> #[trigger] r@[i] as nat == self@.cursors[i],
    {
        self.cursors
    }

    pub fn active_field_idx(&self) -> (r: usize)
        ensures
            r == self@.active,
    {
        self.active_field
    }

    /// The credentials entered, each trimmed, if all are filled in.
    pub fn credentials(&self) -> (r: Option<JiraCredentials>)
        ensures
            match r {
                Some(c) => {
                    &&& c.site@ == trim(self@.values[0])
                    &&& c.email@ == trim(self@.values[1])
                    &&& c.api_key@ == trim(self@.values[2])
                    &&& c.default_project@ == trim(self@.values[3])
                    &&& credentials_complete(c)
                },
                None => trim(self@.values[0]).len() == 0 || trim(self@.values[1]).len() == 0
                    || trim(self@.values[2]).len() == 0 || trim(self@.values[3]).len() == 0,
            },
    {
        let credentials = JiraCredentials {
            site: trimmed(self.site.as_str()),
            email: trimmed(self.email.as_str()),
            api_key: trimmed(self.api_key.as_str()),
            default_project: trimmed(self.default_project.as_str()),
        };
        proof {
            crate::text::lemma_trim_idempotent(self.site@);
            crate::text::lemma_trim_idempotent(self.email@);
            crate::text::lemma_trim_idempotent(self.api_key@);
            crate::text::lemma_trim_idempotent(self.default_project@);
        }
        if credentials.is_complete() {
            Some(credentials)
        } else {
            None
        }
    }

    /// Applies a form action; Submit and Quit are left to the caller, which
    /// the returned command names.
    pub fn dispatch(&mut self, action: SetupAction) -> (r: SetupCommand)
        requires
            old(self).wf(),
            old(self)@.values[old(self)@.active as int].len() < usize::MAX,
        ensures
            final(self).wf(),
            final(self)@ == form_step(old(self)@, action),
            r == match action {
                SetupAction::Submit => SetupCommand::Submit,
                SetupAction::Quit => SetupCommand::Quit,
                _ => SetupCommand::Edited,
            },
    {
        match action {
            SetupAction::NextField => {
                self.active_field = (self.active_field + 1) % 4;
                return SetupCommand::Edited;
            },
            SetupAction::PreviousField => {
                self.active_field = if self.active_field == 0 { 3 } else { self.active_field - 1 };
                return SetupCommand::Edited;
            },
            SetupAction::Submit => {
                return SetupCommand::Submit;
            },
            SetupAction::Quit => {
                return SetupCommand::Quit;
            },
            SetupAction::NoOp => {
                return SetupCommand::Edited;
            },
            _ => {},
        }
        let idx = self.active_field;
        let mut cursor = self.cursors[idx];
        let ghost before = self@;
        assert(before.cursors[idx as int] == cursor);
        if idx == 0 {
            edit(&mut self.site, &mut cursor, action);
        } else if idx == 1 {
            edit(&mut self.email, &mut cursor, action);
        } else if idx == 2 {
            edit(&mut self.api_key, &mut cursor, action);
        } else {
            edit(&mut self.default_project, &mut cursor, action);
        }
        self.cursors[idx] = cursor;
        assert(self@.values =~= before.values.update(idx as int, self@.values[idx as int]));
        assert(self@.cursors =~= before.cursors.update(idx as int, cursor as nat));
        SetupCommand::Edited
    }
}

/// `s` without surrounding whitespace.
fn trimmed(s: &str) -> (r: String)
    ensures
        r@ == trim(s@),
{
    string_from_chars(&trim_chars(&chars_of(s)))
}


/// Moving to the next field and back returns to the field one started on.
pub proof fn lemma_next_previous_field(f: FormView)
    requires
        form_wf(f),
    ensures
        form_step(form_step(f, SetupAction::NextField), SetupAction::PreviousField) == f,
        form_step(form_step(f, SetupAction::PreviousField), SetupAction::NextField) == f,
{
}

/// An edit leaves the form well formed: every cursor stays within its line.
pub proof fn lemma_form_step_wf(f: FormView, action: SetupAction)
    requires
        form_wf(f),
    ensures
        form_wf(form_step(f, action)),
{
    let a = f.active as int;
    let s = f.values[a];
    let c = f.cursors[a];
    crate::input::lemma_skip_left_bounds(s, c as int, true);
    crate::input::lemma_skip_left_bounds(s, crate::input::skip_left(s, c as int, true), false);
    crate::input::lemma_skip_right_bounds(s, c as int, true);
    crate::input::lemma_skip_right_bounds(s, crate::input::skip_right(s, c as int, true), false);
    let g = form_step(f, action);
    assert forall|i: int| 0 <= i < 4 implies #[trigger] g.cursors[i] <= g.values[i].len() by {
        if i != a {
            assert(g.cursors[i] == f.cursors[i] && g.values[i] == f.values[i]);
        }
    }
}
} // verus!
