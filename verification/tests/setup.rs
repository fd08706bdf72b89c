use tira::config::{credentials_from_entries, JiraCredentials};
use tira::setup::{CredentialField, CredentialForm, SetupAction, SetupCommand};

fn type_text(form: &mut CredentialForm, text: &str) {
    for c in text.chars() {
        form.dispatch(SetupAction::Text(c));
    }
}

#[test]
fn fields_are_labelled_in_display_order() {
    let form = CredentialForm::default();
    let labels: Vec<&str> = form.fields().iter().map(|(field, _)| field.label()).collect();
    assert_eq!(labels, vec!["Jira site", "Email", "API token", "Project key"]);
    assert_eq!(form.active_field(), CredentialField::Site);
    assert_eq!(form.cursors(), [0, 0, 0, 0]);
}

#[test]
fn field_switches_wrap_around() {
    let mut form = CredentialForm::default();
    form.dispatch(SetupAction::PreviousField);
    assert_eq!(form.active_field(), CredentialField::DefaultProject);
    form.dispatch(SetupAction::NextField);
    assert_eq!(form.active_field_idx(), 0);
}

#[test]
fn typing_edits_only_the_active_field() {
    let mut form = CredentialForm::default();
    type_text(&mut form, "site");
    form.dispatch(SetupAction::NextField);
    type_text(&mut form, "me@x.io");
    form.dispatch(SetupAction::MoveCursorStart);
    form.dispatch(SetupAction::Delete);
    form.dispatch(SetupAction::MoveCursorEnd);
    form.dispatch(SetupAction::Backspace);
    let fields = form.fields();
    assert_eq!(fields[0].1, "site");
    assert_eq!(fields[1].1, "e@x.i");
    assert_eq!(form.cursors(), [4, 5, 0, 0]);
    form.dispatch(SetupAction::DeleteWordLeft);
    assert_eq!(form.fields()[1].1, "");
    type_text(&mut form, "ab cd");
    form.dispatch(SetupAction::DeleteWordLeft);
    assert_eq!(form.fields()[1].1, "ab ");
    form.dispatch(SetupAction::Clear);
    assert_eq!(form.fields()[1].1, "");
    assert_eq!(form.cursors()[1], 0);
}

#[test]
fn submit_and_quit_are_left_to_the_caller() {
    let mut form = CredentialForm::default();
    assert_eq!(form.dispatch(SetupAction::Submit), SetupCommand::Submit);
    assert_eq!(form.dispatch(SetupAction::Quit), SetupCommand::Quit);
    assert_eq!(form.dispatch(SetupAction::NoOp), SetupCommand::Edited);
}

#[test]
fn credentials_need_every_field_and_are_trimmed() {
    let mut form = CredentialForm::default();
    type_text(&mut form, " https://x.atlassian.net ");
    form.dispatch(SetupAction::NextField);
    type_text(&mut form, "me@x.io");
    form.dispatch(SetupAction::NextField);
    type_text(&mut form, "token");
    assert!(form.credentials().is_none());
    form.dispatch(SetupAction::NextField);
    type_text(&mut form, "KAN ");
    let credentials = form.credentials().unwrap();
    assert_eq!(credentials.site, "https://x.atlassian.net");
    assert_eq!(credentials.default_project, "KAN");
    assert!(credentials.is_complete());
}

#[test]
fn config_entries_must_all_be_present_and_filled() {
    let some = |s: &str| Some(s.to_owned());
    assert!(credentials_from_entries(some("s"), some("e"), some("k"), some("p")).is_some());
    assert!(credentials_from_entries(some("s"), None, some("k"), some("p")).is_none());
    assert!(credentials_from_entries(some("s"), some("  "), some("k"), some("p")).is_none());
    let blank = JiraCredentials {
        site: String::from("s"),
        email: String::from("e"),
        api_key: String::from("\t"),
        default_project: String::from("p"),
    };
    assert!(!blank.is_complete());
}
