//! Work-item type glyphs shown before issue keys.
use vstd::prelude::*;
use crate::text::str_eq;

verus! {

/// The Nerd Font glyph for a Jira issue type.
pub open spec fn icon_spec(kind: Seq<char>) -> Seq<char> {
    if kind == "Epic"@ {
        "\u{f0e7}"@
    } else if kind == "Story"@ {
        "\u{f02e}"@
    } else if kind == "Task"@ {
        "\u{f14a}"@
    } else if kind == "Subtask"@ || kind == "Sub-task"@ {
        "\u{f0c5}"@
    } else if kind == "Bug"@ {
        "\u{f188}"@
    } else {
        "\u{f02d}"@
    }
}

/// The plain-text glyph for a Jira issue type.
pub open spec fn plain_icon_spec(kind: Seq<char>) -> Seq<char> {
    if kind == "Epic"@ {
        "\u{26a1}"@
    } else if kind == "Story"@ {
        "\u{25a3}"@
    } else if kind == "Task"@ {
        "\u{2713}"@
    } else if kind == "Subtask"@ || kind == "Sub-task"@ {
        "\u{29c9}"@
    } else if kind == "Bug"@ {
        "!"@
    } else {
        "\u{2022}"@
    }
}

/// The Nerd Font glyph for issue type `kind`; unknown types get a book.
pub fn icon(kind: &str) -> (r: &'static str)
    ensures
        r@ == icon_spec(kind@),
{
    if str_eq(kind, "Epic") {
        "\u{f0e7}"
    } else if str_eq(kind, "Story") {
        "\u{f02e}"
    } else if str_eq(kind, "Task") {
        "\u{f14a}"
    } else if str_eq(kind, "Subtask") || str_eq(kind, "Sub-task") {
        "\u{f0c5}"
    } else if str_eq(kind, "Bug") {
        "\u{f188}"
    } else {
        "\u{f02d}"
    }
}

/// The plain-text glyph for issue type `kind`; unknown types get a bullet.
pub fn plain_icon(kind: &str) -> (r: &'static str)
    ensures
        r@ == plain_icon_spec(kind@),
{
    if str_eq(kind, "Epic") {
        "\u{26a1}"
    } else if str_eq(kind, "Story") {
        "\u{25a3}"
    } else if str_eq(kind, "Task") {
        "\u{2713}"
    } else if str_eq(kind, "Subtask") || str_eq(kind, "Sub-task") {
        "\u{29c9}"
    } else if str_eq(kind, "Bug") {
        "!"
    } else {
        "\u{2022}"
    }
}

} // verus!
