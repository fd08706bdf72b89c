//! The Jira credentials the client signs in with.
use vstd::prelude::*;
use crate::text::{chars_of, trim, trim_chars};

verus! {

#[derive(Clone, PartialEq, Eq)]
pub struct JiraCredentials {
    pub site: String,
    pub email: String,
    pub api_key: String,
    pub default_project: String,
}

/// Every credential has something besides whitespace in it.
pub open spec fn credentials_complete(c: JiraCredentials) -> bool {
    &&& trim(c.site@).len() > 0
    &&& trim(c.email@).len() > 0
    &&& trim(c.api_key@).len() > 0
    &&& trim(c.default_project@).len() > 0
}

fn has_text(s: &str) -> (r: bool)
    ensures
        r == (trim(s@).len() > 0),
{
    trim_chars(&chars_of(s)).len() > 0
}

impl JiraCredentials {
    /// Whether every credential is filled in.
    pub fn is_complete(&self) -> (r: bool)
        ensures
            r == credentials_complete(*self),
    {
        has_text(self.site.as_str()) && has_text(self.email.as_str()) && has_text(self.api_key.as_str())
            && has_text(self.default_project.as_str())
    }
}

/// The credentials a configuration file's `[atlassian]` table gives: all four
/// entries must be present and filled in.
pub fn credentials_from_entries(
    site: Option<String>,
    email: Option<String>,
    api_key: Option<String>,
    default_project: Option<String>,
) -> (r: Option<JiraCredentials>)
    ensures
        match r {
            Some(c) => {
                &&& site == Some(c.site)
                &&& email == Some(c.email)
                &&& api_key == Some(c.api_key)
                &&& default_project == Some(c.default_project)
                &&& credentials_complete(c)
            },
            None => match (site, email, api_key, default_project) {
                (Some(s), Some(e), Some(k), Some(p)) => !credentials_complete(
                    JiraCredentials { site: s, email: e, api_key: k, default_project: p },
                ),
                _ => true,
            },
        },
{
    match (site, email, api_key, default_project) {
        (Some(site), Some(email), Some(api_key), Some(default_project)) => {
            let credentials = JiraCredentials { site, email, api_key, default_project };
            if credentials.is_complete() {
                Some(credentials)
            } else {
                None
            }
        },
        _ => None,
    }
}

} // verus!
