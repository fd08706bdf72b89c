//! Avatar initials for user names: the first letter of the first name and of
//! the last significant name part, skipping lower-case particles such as "van".
use vstd::prelude::*;
use vstd::string::StrSliceExecFns;
use crate::text::{
    ascii_lower_chars, ascii_lower_seq, char_uppercase, chars_eq, chars_of, split_whitespace,
    string_from_chars, to_uppercase, upper_chars, upper_seq, views_of, words,
};

verus! {

/// Whether a name part is a particle ("van", "de", ...), ignoring ASCII case.
pub open spec fn is_particle_spec(w: Seq<char>) -> bool {
    let l = ascii_lower_seq(w);
    ||| l == "da"@
    ||| l == "de"@
    ||| l == "del"@
    ||| l == "der"@
    ||| l == "di"@
    ||| l == "dos"@
    ||| l == "la"@
    ||| l == "le"@
    ||| l == "van"@
    ||| l == "von"@
}

/// The last of the first `n` words that is not a particle.
pub open spec fn last_non_particle(ws: Seq<Seq<char>>, n: int) -> Option<Seq<char>>
    decreases n,
{
    if n <= 0 {
        None
    } else if !is_particle_spec(ws[n - 1]) {
        Some(ws[n - 1])
    } else {
        last_non_particle(ws, n - 1)
    }
}

/// The initials shown in a user's avatar bubble.
pub open spec fn initials_spec(name: Seq<char>) -> Seq<char> {
    let ws = words(name);
    if ws.len() == 0 {
        "??"@
    } else if ws.len() == 1 {
        upper_seq(ws[0].take(if ws[0].len() < 2 { ws[0].len() as int } else { 2 }))
    } else {
        let last = match last_non_particle(ws, ws.len() as int) {
            Some(w) => w,
            None => ws.last(),
        };
        char_uppercase(ws[0][0]) + char_uppercase(last[0])
    }
}

fn is_particle(token: &Vec<char>) -> (r: bool)
    ensures
        r == is_particle_spec(token@),
{
    let lower = ascii_lower_chars(token);
    chars_eq(&lower, &chars_of("da")) || chars_eq(&lower, &chars_of("de")) || chars_eq(
        &lower,
        &chars_of("del"),
    ) || chars_eq(&lower, &chars_of("der")) || chars_eq(&lower, &chars_of("di")) || chars_eq(
        &lower,
        &chars_of("dos"),
    ) || chars_eq(&lower, &chars_of("la")) || chars_eq(&lower, &chars_of("le")) || chars_eq(
        &lower,
        &chars_of("van"),
    ) || chars_eq(&lower, &chars_of("von"))
}

/// The first `count` characters of `token`, each upper-cased.
fn take_initials(token: &Vec<char>, count: usize) -> (r: Vec<char>)
    ensures
        r@ == upper_seq(token@.take(if count < token@.len() { count as int } else { token@.len() as int })),
{
    let n = if count < token.len() { count } else { token.len() };
    let mut prefix: Vec<char> = Vec::new();
    let mut i: usize = 0;
    while i < n
        invariant
            n <= token.len(),
            i <= n,
            prefix@ == token@.take(i as int),
        decreases n - i,
    {
        prefix.push(token[i]);
        i = i + 1;
        assert(prefix@ =~= token@.take(i as int));
    }
    upper_chars(&prefix)
}

/// The avatar initials for `name`: "??" for a blank name, the first two
/// characters of a single-part name, otherwise the first letters of the first
/// part and of the last part that is not a particle.
pub fn initials(name: &str) -> (r: String)
    ensures
        r@ == initials_spec(name@),
{
    let chars = chars_of(name);
    let tokens = split_whitespace(&chars);
    proof {
        assert(views_of(tokens@).len() == tokens@.len());
    }
    if tokens.len() == 0 {
        return "??".to_owned();
    }
    if tokens.len() == 1 {
        let t = take_initials(&tokens[0], 2);
        proof {
            assert(views_of(tokens@)[0] == tokens@[0]@);
        }
        return string_from_chars(&t);
    }
    let ghost ws = views_of(tokens@);
    let mut n = tokens.len();
    while n > 0 && is_particle(&tokens[n - 1])
        invariant
            ws == views_of(tokens@),
            ws == words(name@),
            tokens@.len() >= 2,
            n <= tokens@.len(),
            last_non_particle(ws, tokens@.len() as int) == last_non_particle(ws, n as int),
        decreases n,
    {
        assert(ws[n - 1] == tokens@[n - 1]@);
        n = n - 1;
    }
    if n > 0 {
        assert(ws[n - 1] == tokens@[n - 1]@);
    }
    let last_index = if n > 0 { n - 1 } else { tokens.len() - 1 };
    assert(ws[0] == tokens@[0]@);
    assert(ws[last_index as int] == tokens@[last_index as int]@);
    assert(tokens@[0]@.len() > 0);
    assert(tokens@[last_index as int]@.len() > 0);
    let mut out = to_uppercase(tokens[0][0]);
    let mut second = to_uppercase(tokens[last_index][0]);
    out.append(&mut second);
    string_from_chars(&out)
}

/// The sum `a + b`, or `usize::MAX` when it does not fit.
pub open spec fn sat_add(a: int, b: int) -> int {
    if a + b > usize::MAX {
        usize::MAX as int
    } else {
        a + b
    }
}

/// Width of the `@XY` bubble for `name` (saturating at `usize::MAX`, which
/// no real string reaches).
pub fn bubble_width(name: &str) -> (r: usize)
    ensures
        r == sat_add(1, initials_spec(name@).len() as int),
{
    let i = initials(name);
    let n = i.as_str().unicode_len();
    n.saturating_add(1)
}

/// Width of the bubble, a gap and the full name (saturating at `usize::MAX`).
pub fn display_width(name: &str) -> (r: usize)
    ensures
        r == sat_add(
            sat_add(
                sat_add(1, initials_spec(name@).len() as int),
                if name@.len() > 0 { 1int } else { 0int },
            ),
            name@.len() as int,
        ),
{
    let bubble = bubble_width(name);
    let count = name.unicode_len();
    let gap: usize = if count > 0 { 1 } else { 0 };
    bubble.saturating_add(gap).saturating_add(count)
}

} // verus!
