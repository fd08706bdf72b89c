use tira::collections::FieldMap;
use tira::models::{
    sprint_short_label, BoardData, IssueSummary, SprintState, SprintSummary, TimelineEpic,
    TimelineEpicStats, TimelineIssue, TimelineSprint,
};

#[test]
fn numbered_sprint_uses_s_prefix_with_trailing_number() {
    assert_eq!(sprint_short_label("DICE Sprint 190"), "S190");
    assert_eq!(sprint_short_label("Sprint 5"), "S5");
    // The sprint number trails the name, so a leading number is ignored.
    assert_eq!(sprint_short_label("2026 Sprint 5"), "S5");
}

#[test]
fn three_or_more_words_use_uppercased_initials() {
    assert_eq!(sprint_short_label("ready to pick up"), "RTPU");
    assert_eq!(sprint_short_label("get it done now"), "GIDN");
}

#[test]
fn one_or_two_unnumbered_words_use_first_three_chars() {
    assert_eq!(sprint_short_label("CDS backlog"), "CDS");
    assert_eq!(sprint_short_label("Archive"), "ARC");
    assert_eq!(sprint_short_label("QA"), "QA");
}

#[test]
fn sprint_label_trims_and_uses_the_last_digit_run() {
    assert_eq!(sprint_short_label("  Sprint 12a7  "), "S7");
    assert_eq!(sprint_short_label(""), "");
    assert_eq!(sprint_short_label("straße"), "STR");
    let sprint = TimelineSprint {
        id: 3,
        name: String::from("DICE Sprint 190"),
        state: SprintState::Active,
        start_day: None,
        end_day: None,
    };
    assert_eq!(sprint.short_label(), "S190");
}

fn sprint(days: Option<i64>) -> SprintSummary {
    SprintSummary {
        name: String::from("Sprint"),
        goal: None,
        days_remaining: days,
        start_date: None,
        end_date: None,
    }
}

#[test]
fn days_left_label_covers_every_remaining_count() {
    assert_eq!(sprint(None).days_left_label(), None);
    assert_eq!(sprint(Some(-3)).days_left_label().as_deref(), Some("Sprint ended"));
    assert_eq!(sprint(Some(0)).days_left_label().as_deref(), Some("Ends today"));
    assert_eq!(sprint(Some(1)).days_left_label().as_deref(), Some("1 day left"));
    assert_eq!(sprint(Some(4)).days_left_label().as_deref(), Some("4 days left"));
    assert_eq!(sprint(Some(120)).days_left_label().as_deref(), Some("120 days left"));
}

fn issue(key: &str, status: &str) -> IssueSummary {
    IssueSummary {
        key: key.to_owned(),
        summary: String::new(),
        status: status.to_owned(),
        issue_type: String::from("Task"),
        parent_key: None,
        has_children: false,
        field_values: FieldMap::new(),
    }
}

#[test]
fn board_from_issues_has_a_column_per_status_in_first_seen_order() {
    let board = BoardData::from_issues(vec![
        issue("A-1", "To Do"),
        issue("A-2", "Done"),
        issue("A-3", "To Do"),
    ]);
    let names: Vec<&str> = board.columns.iter().map(|c| c.name.as_str()).collect();
    assert_eq!(names, vec!["To Do", "Done"]);
    assert_eq!(board.columns[1].statuses, vec![String::from("Done")]);
    assert_eq!(board.swimlanes.len(), 1);
    assert_eq!(board.swimlanes[0].issue_keys, vec!["A-1", "A-2", "A-3"]);
    assert_eq!(board.name, "Project board");

    let empty = BoardData::from_issues(Vec::new());
    assert_eq!(empty.columns.len(), 1);
    assert_eq!(empty.columns[0].name, "Issues");
    assert!(empty.columns[0].statuses.is_empty());
}

fn child(ids: &[i64]) -> TimelineIssue {
    TimelineIssue {
        key: String::from("C-1"),
        summary: String::new(),
        status: String::new(),
        issue_type: String::new(),
        done: false,
        sprint_ids: ids.to_vec(),
    }
}

#[test]
fn epic_sprint_ids_are_distinct_and_sorted() {
    let epic = TimelineEpic {
        key: String::from("E-1"),
        summary: String::new(),
        status: String::new(),
        done: false,
        stats: TimelineEpicStats { to_do: 1, in_progress: 1, done: 2 },
        children: vec![child(&[7, 3]), child(&[]), child(&[3, 11, 7])],
    };
    assert_eq!(epic.sprint_ids(), vec![3, 7, 11]);
}

#[test]
fn epic_progress_counts_and_rounds_down() {
    let stats = TimelineEpicStats { to_do: 1, in_progress: 1, done: 1 };
    assert_eq!(stats.total(), 3);
    assert_eq!(stats.percent_done(), 33);
    assert_eq!(TimelineEpicStats { to_do: 0, in_progress: 0, done: 0 }.percent_done(), 0);
    assert_eq!(TimelineEpicStats { to_do: 0, in_progress: 0, done: 5 }.percent_done(), 100);
}
