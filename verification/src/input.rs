//! Cursor-based single-line text editing. Cursors count characters, not
//! bytes, and every operation keeps the cursor on a character boundary.
use vstd::prelude::*;
use vstd::string::StrSliceExecFns;
use crate::text::{chars_of, is_whitespace, spec_is_whitespace, string_from_chars};

verus! {

/// Moves left from `i` over the characters whose whitespace-ness is `ws`.
pub open spec fn skip_left(s: Seq<char>, i: int, ws: bool) -> int
    decreases i,
{
    if 0 < i <= s.len() && spec_is_whitespace(s[i - 1]) == ws {
        skip_left(s, i - 1, ws)
    } else {
        i
    }
}

/// Moves right from `i` over the characters whose whitespace-ness is `ws`.
pub open spec fn skip_right(s: Seq<char>, i: int, ws: bool) -> int
    decreases s.len() - i,
{
    if 0 <= i < s.len() && spec_is_whitespace(s[i]) == ws {
        skip_right(s, i + 1, ws)
    } else {
        i
    }
}

/// Start of the word before `i`: skip whitespace, then the word itself.
pub open spec fn word_left(s: Seq<char>, i: int) -> int {
    skip_left(s, skip_left(s, i, true), false)
}

/// End of the word after `i`: skip whitespace, then the word itself.
pub open spec fn word_right(s: Seq<char>, i: int) -> int {
    skip_right(s, skip_right(s, i, true), false)
}

pub proof fn lemma_skip_left_bounds(s: Seq<char>, i: int, ws: bool)
    requires
        0 <= i <= s.len(),
    ensures
        0 <= skip_left(s, i, ws) <= i,
    decreases i,
{
    if 0 < i && spec_is_whitespace(s[i - 1]) == ws {
        lemma_skip_left_bounds(s, i - 1, ws);
    }
}

pub proof fn lemma_skip_right_bounds(s: Seq<char>, i: int, ws: bool)
    requires
        0 <= i <= s.len(),
    ensures
        i <= skip_right(s, i, ws) <= s.len(),
    decreases s.len() - i,
{
    if i < s.len() && spec_is_whitespace(s[i]) == ws {
        lemma_skip_right_bounds(s, i + 1, ws);
    }
}

fn skip_left_exec(chars: &Vec<char>, start: usize, ws: bool) -> (r: usize)
    requires
        start <= chars.len(),
    ensures
        r == skip_left(chars@, start as int, ws),
        r <= start,
{
    let mut idx = start;
    while idx > 0 && is_whitespace(chars[idx - 1]) == ws
        invariant
            idx <= start <= chars.len(),
            skip_left(chars@, idx as int, ws) == skip_left(chars@, start as int, ws),
        decreases idx,
    {
        idx = idx - 1;
    }
    idx
}

fn skip_right_exec(chars: &Vec<char>, start: usize, ws: bool) -> (r: usize)
    requires
        start <= chars.len(),
    ensures
        r == skip_right(chars@, start as int, ws),
        start <= r <= chars.len(),
{
    let mut idx = start;
    while idx < chars.len() && is_whitespace(chars[idx]) == ws
        invariant
            start <= idx <= chars.len(),
            skip_right(chars@, idx as int, ws) == skip_right(chars@, start as int, ws),
        decreases chars.len() - idx,
    {
        idx = idx + 1;
    }
    idx
}

/// The characters of `v` outside the range `from..to`.
fn cut(v: &Vec<char>, from: usize, to: usize) -> (r: Vec<char>)
    requires
        from <= to <= v.len(),
    ensures
        r@ == v@.take(from as int) + v@.skip(to as int),
{
    let mut out: Vec<char> = Vec::new();
    let mut i: usize = 0;
    while i < from
        invariant
            i <= from <= to <= v.len(),
            out@ == v@.take(i as int),
        decreases from - i,
    {
        out.push(v[i]);
        i = i + 1;
        assert(out@ =~= v@.take(i as int));
    }
    let mut j: usize = to;
    while j < v.len()
        invariant
            from <= to <= j <= v.len(),
            out@ == v@.take(from as int) + v@.subrange(to as int, j as int),
        decreases v.len() - j,
    {
        out.push(v[j]);
        j = j + 1;
        assert(out@ =~= v@.take(from as int) + v@.subrange(to as int, j as int));
    }
    assert(v@.subrange(to as int, v.len() as int) =~= v@.skip(to as int));
    out
}

/// Inserts `c` at the cursor (appending when the cursor is at or past the end)
/// and moves the cursor past it.
pub fn insert_char(s: &mut String, cursor: &mut usize, c: char)
    requires
        *old(cursor) < usize::MAX,
    ensures
        final(s)@ == if *old(cursor) >= old(s)@.len() {
            old(s)@.push(c)
        } else {
            old(s)@.insert(*old(cursor) as int, c)
        },
        *final(cursor) == *old(cursor) + 1,
{
    let mut chars = chars_of(s.as_str());
    if *cursor >= chars.len() {
        chars.push(c);
    } else {
        chars.insert(*cursor, c);
    }
    *s = string_from_chars(&chars);
    *cursor = *cursor + 1;
}

/// Deletes the character before the cursor and moves the cursor back one.
pub fn delete_backwards(s: &mut String, cursor: &mut usize)
    ensures
        *old(cursor) == 0 ==> *final(cursor) == 0 && final(s)@ == old(s)@,
        *old(cursor) > 0 ==> *final(cursor) == *old(cursor) - 1 && final(s)@ == if *old(cursor)
            - 1 < old(s)@.len() {
            old(s)@.remove(*old(cursor) - 1)
        } else {
            old(s)@
        },
{
    if *cursor == 0 {
        return;
    }
    *cursor = *cursor - 1;
    let chars = chars_of(s.as_str());
    if *cursor < chars.len() {
        let rest = cut(&chars, *cursor, *cursor + 1);
        assert(rest@ =~= chars@.remove(*cursor as int));
        *s = string_from_chars(&rest);
    }
}

/// Deletes the character under the cursor, if any.
pub fn delete_forwards(s: &mut String, cursor: usize)
    ensures
        final(s)@ == if cursor < old(s)@.len() {
            old(s)@.remove(cursor as int)
        } else {
            old(s)@
        },
{
    let chars = chars_of(s.as_str());
    if cursor < chars.len() {
        let rest = cut(&chars, cursor, cursor + 1);
        assert(rest@ =~= chars@.remove(cursor as int));
        *s = string_from_chars(&rest);
    }
}

/// Moves the cursor to the start of the previous word.
pub fn move_word_left(s: &str, cursor: &mut usize)
    requires
        *old(cursor) <= s@.len(),
    ensures
        *final(cursor) == word_left(s@, *old(cursor) as int),
        *final(cursor) <= *old(cursor),
{
    if *cursor == 0 {
        return;
    }
    let chars = chars_of(s);
    let idx = skip_left_exec(&chars, *cursor, true);
    let idx = skip_left_exec(&chars, idx, false);
    *cursor = idx;
}

/// Moves the cursor to the end of the next word.
pub fn move_word_right(s: &str, cursor: &mut usize)
    ensures
        *final(cursor) == if *old(cursor) >= s@.len() {
            *old(cursor) as int
        } else {
            word_right(s@, *old(cursor) as int)
        },
        *old(cursor) <= *final(cursor),
        *old(cursor) <= s@.len() ==> *final(cursor) <= s@.len(),
{
    let chars = chars_of(s);
    if *cursor >= chars.len() {
        return;
    }
    let idx = skip_right_exec(&chars, *cursor, true);
    let idx = skip_right_exec(&chars, idx, false);
    *cursor = idx;
}

/// Deletes from the start of the previous word up to the cursor.
pub fn delete_word_left(s: &mut String, cursor: &mut usize)
    requires
        *old(cursor) <= old(s)@.len(),
    ensures
        *final(cursor) == if *old(cursor) == 0 {
            0
        } else {
            word_left(old(s)@, *old(cursor) as int)
        },
        final(s)@ == old(s)@.take(*final(cursor) as int) + old(s)@.skip(*old(cursor) as int),
{
    if *cursor == 0 {
        assert(old(s)@.take(0) + old(s)@.skip(0) =~= old(s)@);
        return;
    }
    let old_cursor = *cursor;
    move_word_left(s.as_str(), cursor);
    let chars = chars_of(s.as_str());
    let rest = cut(&chars, *cursor, old_cursor);
    *s = string_from_chars(&rest);
}

/// Deletes from the cursor to the end of the next word.
pub fn delete_word_right(s: &mut String, cursor: usize)
    ensures
        final(s)@ == if cursor < old(s)@.len() {
            old(s)@.take(cursor as int) + old(s)@.skip(word_right(old(s)@, cursor as int))
        } else {
            old(s)@
        },
{
    let mut target = cursor;
    move_word_right(s.as_str(), &mut target);
    let chars = chars_of(s.as_str());
    if cursor < chars.len() {
        let rest = cut(&chars, cursor, target);
        *s = string_from_chars(&rest);
    }
}

/// Deletes everything from the cursor to the end.
pub fn delete_to_end(s: &mut String, cursor: usize)
    ensures
        final(s)@ == if cursor < old(s)@.len() {
            old(s)@.take(cursor as int)
        } else {
            old(s)@
        },
{
    let chars = chars_of(s.as_str());
    if cursor < chars.len() {
        let rest = cut(&chars, cursor, chars.len());
        assert(rest@ =~= chars@.take(cursor as int));
        *s = string_from_chars(&rest);
    }
}

/// Deletes everything before the cursor and moves the cursor to the start.
pub fn delete_to_start(s: &mut String, cursor: &mut usize)
    ensures
        final(s)@ == if *old(cursor) < old(s)@.len() {
            old(s)@.skip(*old(cursor) as int)
        } else {
            Seq::<char>::empty()
        },
        *final(cursor) == 0,
{
    let chars = chars_of(s.as_str());
    let end = if *cursor < chars.len() { *cursor } else { chars.len() };
    let rest = cut(&chars, 0, end);
    assert(rest@ =~= if *old(cursor) < old(s)@.len() {
        old(s)@.skip(*old(cursor) as int)
    } else {
        Seq::<char>::empty()
    });
    *s = string_from_chars(&rest);
    *cursor = 0;
}

/// Moves the cursor one character left, stopping at the start.
pub fn move_left(cursor: &mut usize)
    ensures
        *final(cursor) == if *old(cursor) > 0 { *old(cursor) - 1 } else { 0 },
{
    if *cursor > 0 {
        *cursor = *cursor - 1;
    }
}

/// Moves the cursor one character right, stopping at the end.
pub fn move_right(s: &str, cursor: &mut usize)
    ensures
        *final(cursor) == if *old(cursor) < s@.len() { *old(cursor) + 1 } else { *old(cursor) as int },
{
    let count = s.unicode_len();
    if *cursor < count {
        *cursor = *cursor + 1;
    }
}


/// Inserting a character at the cursor and deleting backwards removes it
/// again and puts the cursor back.
pub proof fn lemma_insert_then_delete_backwards(s: Seq<char>, cursor: nat, c: char)
    requires
        cursor <= s.len(),
    ensures
        ({
            let typed = if cursor >= s.len() { s.push(c) } else { s.insert(cursor as int, c) };
            &&& (cursor + 1) - 1 < typed.len()
            &&& typed.remove(cursor as int) == s
        }),
{
    let typed = if cursor >= s.len() { s.push(c) } else { s.insert(cursor as int, c) };
    assert(typed.remove(cursor as int) =~= s);
}

proof fn lemma_skip_left_stops(s: Seq<char>, i: int, ws: bool)
    requires
        0 <= i <= s.len(),
    ensures
        0 <= skip_left(s, i, ws) <= i,
        forall|k: int| skip_left(s, i, ws) <= k < i ==> spec_is_whitespace(#[trigger] s[k]) == ws,
        skip_left(s, i, ws) == 0 || spec_is_whitespace(s[skip_left(s, i, ws) - 1]) != ws,
    decreases i,
{
    if 0 < i && spec_is_whitespace(s[i - 1]) == ws {
        lemma_skip_left_stops(s, i - 1, ws);
    }
}

/// Moving a word left from `i > 0` passes the whitespace just before the
/// cursor and then the whole word before it: the result `p` is below `i`,
/// is the start of the text or follows whitespace, starts a word unless it
/// is the start of the text, and the text from `p` to `i` is a word followed
/// by whitespace (no whitespace comes before a non-whitespace character).
pub proof fn lemma_word_left_starts_a_word(s: Seq<char>, i: int)
    requires
        0 < i <= s.len(),
    ensures
        0 <= word_left(s, i) < i,
        word_left(s, i) == 0 || spec_is_whitespace(s[word_left(s, i) - 1]),
        word_left(s, i) > 0 ==> !spec_is_whitespace(s[word_left(s, i)]),
        forall|a: int, b: int| word_left(s, i) <= a < b < i && spec_is_whitespace(#[trigger] s[a])
            ==> spec_is_whitespace(#[trigger] s[b]),
{
    let j = skip_left(s, i, true);
    lemma_skip_left_stops(s, i, true);
    lemma_skip_left_stops(s, j, false);
    if j > 0 {
        assert(!spec_is_whitespace(s[j - 1]));
    }
}
} // verus!
