//! The work the application asks its runtime to do, and what comes back.
use vstd::prelude::*;
use crate::collections::IdSet;
use crate::config::JiraCredentials;
use crate::models::{
    BoardData, CommandLogEntry, FieldSummary, IssueSummary, JiraError, ProjectSummary,
    UserSummary,
};

verus! {

#[derive(Clone, PartialEq, Eq)]
pub enum AppEffect {
    LoadJiraProject {
        request_id: u64,
        purpose: JiraLoadPurpose,
        credentials: JiraCredentials,
        fields: String,
        /// Max root issues to fetch in the project load's root query.
        root_max_results: u32,
    },
    /// Reload only the board, leaving the list view and its paging untouched.
    ReloadBoardOnly { request_id: u64, credentials: JiraCredentials },
    /// Load the Timeline tab's data (epics and sprints) on demand.
    LoadTimeline { request_id: u64, credentials: JiraCredentials },
    LoadMoreRoots {
        request_id: u64,
        credentials: JiraCredentials,
        fields: String,
        page_token: String,
        max_results: u32,
    },
    LoadChildren { request_id: u64, credentials: JiraCredentials, parent_key: String, fields: String },
    /// Load the children of several parents in one query; each parent
    /// carries its own request id.
    LoadChildrenBatch { credentials: JiraCredentials, parents: Vec<(String, u64)>, fields: String },
    SearchIssues { request_id: u64, credentials: JiraCredentials, term: String, fields: String },
    CopyToClipboard(String),
    /// Persist the theme chosen, by its name.
    SaveTheme(String),
    AssignIssue {
        request_id: u64,
        issue_key: String,
        assignee: Option<UserSummary>,
        credentials: JiraCredentials,
    },
    TransitionIssueStatus {
        request_id: u64,
        issue_key: String,
        status: String,
        status_id: Option<String>,
        credentials: JiraCredentials,
    },
    RankIssue {
        request_id: u64,
        issue_key: String,
        rank_before: Option<String>,
        rank_after: Option<String>,
        credentials: JiraCredentials,
    },
}

#[derive(Debug, Clone, Copy, PartialEq, Eq, Structural)]
pub enum JiraLoadPurpose {
    Initial,
    Setup,
    Reload,
    ReloadBoard,
    SwitchProject,
}

#[derive(Debug, PartialEq, Eq)]
pub struct JiraProjectLoadResult {
    pub issues: Result<Vec<IssueSummary>, JiraError>,
    pub board: Result<BoardData, JiraError>,
    pub next_page_token: Option<String>,
    pub fields: Result<Vec<FieldSummary>, JiraError>,
    pub projects: Result<Vec<ProjectSummary>, JiraError>,
    pub users: Result<Vec<UserSummary>, JiraError>,
    pub current_user: Result<UserSummary, JiraError>,
    /// Field ids that carry a value on a sample of the project's recent
    /// issues; `None` when the sample could not be taken.
    pub populated_fields: Option<IdSet>,
    pub logs: Vec<CommandLogEntry>,
}

} // verus!
