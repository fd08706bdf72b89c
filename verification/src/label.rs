//! Comma-separated issue labels, rendered as bracketed chips.
use vstd::prelude::*;
use crate::text::{chars_of, string_from_chars, trim, trim_chars};

verus! {

/// `s` split at every `sep`, scanning from `i` with the partial segment `cur`
/// (`str::split`); always yields at least one segment.
pub open spec fn split_from(s: Seq<char>, sep: char, i: int, cur: Seq<char>) -> Seq<Seq<char>>
    decreases s.len() - i,
{
    if i >= s.len() || i < 0 {
        seq![cur]
    } else if s[i] == sep {
        seq![cur] + split_from(s, sep, i + 1, Seq::empty())
    } else {
        split_from(s, sep, i + 1, cur.push(s[i]))
    }
}

/// Each segment trimmed, empty ones dropped.
pub open spec fn nonempty_trimmed(segs: Seq<Seq<char>>) -> Seq<Seq<char>>
    decreases segs.len(),
{
    if segs.len() == 0 {
        Seq::empty()
    } else {
        let t = trim(segs[0]);
        (if t.len() > 0 { seq![t] } else { Seq::empty() }) + nonempty_trimmed(segs.drop_first())
    }
}

/// The labels listed in `labels`.
pub open spec fn parse_spec(labels: Seq<char>) -> Seq<Seq<char>> {
    nonempty_trimmed(split_from(labels, ',', 0, Seq::empty()))
}

/// Total rendered width: each label plus its two brackets.
pub open spec fn labels_width(ls: Seq<Seq<char>>) -> int
    decreases ls.len(),
{
    if ls.len() == 0 {
        0
    } else {
        labels_width(ls.drop_last()) + ls.last().len() + 2
    }
}

pub open spec fn string_views(v: Seq<String>) -> Seq<Seq<char>> {
    v.map_values(|s: String| s@)
}

proof fn lemma_nonempty_trimmed_cons(cur: Seq<char>, rest: Seq<Seq<char>>)
    ensures
        nonempty_trimmed(seq![cur] + rest) == (if trim(cur).len() > 0 {
            seq![trim(cur)]
        } else {
            Seq::empty()
        }) + nonempty_trimmed(rest),
{
    assert((seq![cur] + rest).drop_first() =~= rest);
    assert((seq![cur] + rest)[0] == cur);
}

/// The non-empty, trimmed, comma-separated labels of `labels`.
pub fn parse(labels: &str) -> (r: Vec<String>)
    ensures
        string_views(r@) == parse_spec(labels@),
{
    let s = chars_of(labels);
    let mut out: Vec<String> = Vec::new();
    let mut cur: Vec<char> = Vec::new();
    let mut i: usize = 0;
    assert(string_views(out@) =~= Seq::<Seq<char>>::empty());
    while i < s.len()
        invariant
            i <= s.len(),
            s@ == labels@,
            string_views(out@) + nonempty_trimmed(split_from(s@, ',', i as int, cur@))
                == parse_spec(labels@),
        decreases s.len() - i,
    {
        let c = s[i];
        if c == ',' {
            let ghost prev = cur@;
            let ghost old_out = string_views(out@);
            assert(split_from(s@, ',', i as int, prev) == seq![prev] + split_from(
                s@,
                ',',
                i + 1,
                Seq::empty(),
            ));
            proof {
                lemma_nonempty_trimmed_cons(prev, split_from(s@, ',', i + 1, Seq::empty()));
            }
            let t = trim_chars(&cur);
            if t.len() > 0 {
                out.push(string_from_chars(&t));
                assert(string_views(out@) =~= old_out + seq![trim(prev)]);
            } else {
                assert(trim(prev) =~= Seq::<char>::empty());
            }
            cur = Vec::new();
            assert(cur@ =~= Seq::<char>::empty());
        } else {
            assert(split_from(s@, ',', i as int, cur@) == split_from(s@, ',', i + 1, cur@.push(c)));
            cur.push(c);
        }
        i = i + 1;
    }
    let ghost prev = cur@;
    let ghost old_out = string_views(out@);
    assert(split_from(s@, ',', i as int, prev) == seq![prev]);
    proof {
        lemma_nonempty_trimmed_cons(prev, Seq::empty());
        assert(seq![prev] + Seq::<Seq<char>>::empty() =~= seq![prev]);
    }
    let t = trim_chars(&cur);
    if t.len() > 0 {
        out.push(string_from_chars(&t));
        assert(string_views(out@) =~= old_out + seq![trim(prev)]);
    }
    out
}

/// Rendered width of all labels in `labels` (saturating at `usize::MAX`).
pub fn display_width(labels: &str) -> (r: usize)
    ensures
        r == if labels_width(parse_spec(labels@)) > usize::MAX {
            usize::MAX as int
        } else {
            labels_width(parse_spec(labels@))
        },
{
    let parts = parse(labels);
    let ghost ls = string_views(parts@);
    let mut total: usize = 0;
    let mut i: usize = 0;
    while i < parts.len()
        invariant
            ls == string_views(parts@),
            i <= parts.len(),
            total == if labels_width(ls.take(i as int)) > usize::MAX {
                usize::MAX as int
            } else {
                labels_width(ls.take(i as int))
            },
        decreases parts.len() - i,
    {
        let n = chars_of(parts[i].as_str()).len();
        assert(ls.take(i + 1).drop_last() =~= ls.take(i as int));
        assert(ls.take(i + 1).last() == parts@[i as int]@);
        proof {
            lemma_labels_width_nonneg(ls.take(i as int));
        }
        total = total.saturating_add(n).saturating_add(2);
        i = i + 1;
    }
    assert(ls.take(parts.len() as int) =~= ls);
    total
}

proof fn lemma_labels_width_nonneg(ls: Seq<Seq<char>>)
    ensures
        labels_width(ls) >= 0,
    decreases ls.len(),
{
    if ls.len() > 0 {
        lemma_labels_width_nonneg(ls.drop_last());
    }
}

/// Whether `labels` names at least one label.
pub fn has_labels(labels: &str) -> (r: bool)
    ensures
        r == (parse_spec(labels@).len() > 0),
{
    let parts = parse(labels);
    parts.len() > 0
}

} // verus!
