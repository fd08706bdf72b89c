//! Priority glyphs for issue rows.
use vstd::prelude::*;
use vstd::string::StrSliceExecFns;
use crate::text::str_eq;

verus! {

/// The Nerd Font glyph for a Jira priority name.
pub open spec fn icon_spec(priority: Seq<char>) -> Seq<char> {
    if priority == "Highest"@ {
        "\u{f013f}"@
    } else if priority == "High"@ {
        "\u{f0143}"@
    } else if priority == "Medium"@ {
        "\u{f01fc}"@
    } else if priority == "Low"@ {
        "\u{f0140}"@
    } else if priority == "Lowest"@ {
        "\u{f013c}"@
    } else {
        "\u{2022}"@
    }
}

/// The plain-text glyph for a Jira priority name, for terminals without
/// Nerd Font icons.
pub open spec fn plain_icon_spec(priority: Seq<char>) -> Seq<char> {
    if priority == "Highest"@ {
        "\u{2303}"@
    } else if priority == "High"@ {
        "^"@
    } else if priority == "Medium"@ {
        "="@
    } else if priority == "Low"@ {
        "v"@
    } else if priority == "Lowest"@ {
        "\u{2304}"@
    } else {
        "\u{2022}"@
    }
}

/// The Nerd Font glyph for `priority`; unknown priorities get a bullet.
pub fn icon(priority: &str) -> (r: &'static str)
    ensures
        r@ == icon_spec(priority@),
{
    if str_eq(priority, "Highest") {
        "\u{f013f}"
    } else if str_eq(priority, "High") {
        "\u{f0143}"
    } else if str_eq(priority, "Medium") {
        "\u{f01fc}"
    } else if str_eq(priority, "Low") {
        "\u{f0140}"
    } else if str_eq(priority, "Lowest") {
        "\u{f013c}"
    } else {
        "\u{2022}"
    }
}

/// The plain-text glyph for `priority`; unknown priorities get a bullet.
pub fn plain_icon(priority: &str) -> (r: &'static str)
    ensures
        r@ == plain_icon_spec(priority@),
{
    if str_eq(priority, "Highest") {
        "\u{2303}"
    } else if str_eq(priority, "High") {
        "^"
    } else if str_eq(priority, "Medium") {
        "="
    } else if str_eq(priority, "Low") {
        "v"
    } else if str_eq(priority, "Lowest") {
        "\u{2304}"
    } else {
        "\u{2022}"
    }
}

/// Cells taken by the glyph, plus a gap and the priority name unless
/// `minimal` (saturating at `usize::MAX`).
pub fn display_width(priority: &str, minimal: bool) -> (r: usize)
    ensures
        r == if minimal {
            icon_spec(priority@).len() as int
        } else {
            let total = icon_spec(priority@).len() + (if priority@.len() > 0 { 1int } else { 0int })
                + priority@.len();
            if total > usize::MAX { usize::MAX as int } else { total }
        },
{
    let icon_width = icon(priority).unicode_len();
    if minimal {
        icon_width
    } else {
        let count = priority.unicode_len();
        let gap: usize = if count > 0 { 1 } else { 0 };
        icon_width.saturating_add(gap).saturating_add(count)
    }
}

} // verus!
