//! Small string-keyed collections with mathematical views: a field map from
//! field ids to values and a set of item ids.
use vstd::prelude::*;

verus! {

/// The map denoted by a list of entries; a later entry for a key wins.
pub open spec fn entries_map(s: Seq<(Seq<char>, Seq<char>)>) -> Map<Seq<char>, Seq<char>>
    decreases s.len(),
{
    if s.len() == 0 {
        Map::empty()
    } else {
        entries_map(s.drop_last()).insert(s.last().0, s.last().1)
    }
}

/// The entries with key `k` removed.
pub open spec fn without_key(s: Seq<(Seq<char>, Seq<char>)>, k: Seq<char>) -> Seq<
    (Seq<char>, Seq<char>),
> {
    s.filter(|e: (Seq<char>, Seq<char>)| e.0 != k)
}

pub proof fn lemma_entries_map_without(s: Seq<(Seq<char>, Seq<char>)>, k: Seq<char>)
    ensures
        entries_map(without_key(s, k)) == entries_map(s).remove(k),
    decreases s.len(),
{
    reveal_with_fuel(Seq::filter, 1);
    if s.len() == 0 {
        assert(entries_map(s).remove(k) =~= Map::empty());
    } else {
        lemma_entries_map_without(s.drop_last(), k);
        assert(without_key(s, k) == if s.last().0 != k {
            without_key(s.drop_last(), k).push(s.last())
        } else {
            without_key(s.drop_last(), k)
        });
        if s.last().0 != k {
            assert(without_key(s, k).drop_last() =~= without_key(s.drop_last(), k));
            assert(entries_map(without_key(s, k)) =~= entries_map(s).remove(k));
        } else {
            assert(entries_map(without_key(s, k)) =~= entries_map(s).remove(k));
        }
    }
}

/// If no entry after position `j` has key `k` and entry `j` does, the map
/// sends `k` to entry `j`'s value.
pub proof fn lemma_entries_map_last(s: Seq<(Seq<char>, Seq<char>)>, j: int, k: Seq<char>)
    requires
        0 <= j < s.len(),
        s[j].0 == k,
        forall|i: int| j < i < s.len() ==> s[i].0 != k,
    ensures
        entries_map(s).contains_key(k),
        entries_map(s)[k] == s[j].1,
    decreases s.len(),
{
    if j < s.len() - 1 {
        lemma_entries_map_last(s.drop_last(), j, k);
    }
}

/// With no entry for `k`, the map has no key `k`.
pub proof fn lemma_entries_map_absent(s: Seq<(Seq<char>, Seq<char>)>, k: Seq<char>)
    requires
        forall|i: int| 0 <= i < s.len() ==> s[i].0 != k,
    ensures
        !entries_map(s).contains_key(k),
    decreases s.len(),
{
    if s.len() > 0 {
        lemma_entries_map_absent(s.drop_last(), k);
    }
}

/// The map has a key exactly when some entry has it.
pub proof fn lemma_entries_map_dom(s: Seq<(Seq<char>, Seq<char>)>, k: Seq<char>)
    ensures
        entries_map(s).contains_key(k) <==> exists|i: int| 0 <= i < s.len() && (#[trigger] s[i]).0 == k,
    decreases s.len(),
{
    if s.len() > 0 {
        lemma_entries_map_dom(s.drop_last(), k);
        if entries_map(s.drop_last()).contains_key(k) {
            let i = choose|i: int| 0 <= i < s.drop_last().len() && (#[trigger] s.drop_last()[i]).0 == k;
            assert(s[i].0 == k);
        }
        if exists|i: int| 0 <= i < s.len() && (#[trigger] s[i]).0 == k {
            let i = choose|i: int| 0 <= i < s.len() && (#[trigger] s[i]).0 == k;
            if i < s.len() - 1 {
                assert(s.drop_last()[i].0 == k);
            }
        }
    }
}

/// A map from field ids to display values (a replacement for a sorted map
/// keyed by strings, whose lookups Verus cannot follow).
#[derive(Debug, Clone, PartialEq, Eq)]
pub struct FieldMap {
    entries: Vec<(String, String)>,
}

pub open spec fn entry_views(v: Seq<(String, String)>) -> Seq<(Seq<char>, Seq<char>)> {
    v.map_values(|e: (String, String)| (e.0@, e.1@))
}

impl View for FieldMap {
    type V = Map<Seq<char>, Seq<char>>;

    closed spec fn view(&self) -> Map<Seq<char>, Seq<char>> {
        entries_map(entry_views(self.entries@))
    }
}

impl FieldMap {
    pub fn new() -> (r: Self)
        ensures
            r@ == Map::<Seq<char>, Seq<char>>::empty(),
    {
        let r = FieldMap { entries: Vec::new() };
        assert(entry_views(r.entries@) =~= Seq::empty());
        r
    }

    /// The value stored for `key`.
    pub fn get(&self, key: &str) -> (r: Option<&String>)
        ensures
            r matches Some(v) ==> self@.contains_key(key@) && self@[key@] == v@,
            r is None ==> !self@.contains_key(key@),
    {
        let ghost s = entry_views(self.entries@);
        let mut i = self.entries.len();
        while i > 0
            invariant
                i <= self.entries.len(),
                s == entry_views(self.entries@),
                forall|j: int| i <= j < s.len() ==> s[j].0 != key@,
            decreases i,
        {
            if crate::text::str_eq(self.entries[i - 1].0.as_str(), key) {
                proof {
                    lemma_entries_map_last(s, i - 1, key@);
                }
                return Some(&self.entries[i - 1].1);
            }
            i = i - 1;
        }
        proof {
            lemma_entries_map_absent(s, key@);
        }
        None
    }

    /// Whether `key` has a value.
    pub fn contains_key(&self, key: &str) -> (r: bool)
        ensures
            r == self@.contains_key(key@),
    {
        self.get(key).is_some()
    }

    /// An independent copy of the map.
    pub fn copy(&self) -> (r: FieldMap)
        ensures
            r@ == self@,
    {
        let mut entries: Vec<(String, String)> = Vec::new();
        let mut i: usize = 0;
        while i < self.entries.len()
            invariant
                i <= self.entries.len(),
                entry_views(entries@) == entry_views(self.entries@).take(i as int),
            decreases self.entries.len() - i,
        {
            let e = (self.entries[i].0.clone(), self.entries[i].1.clone());
            let ghost before = entries@;
            entries.push(e);
            assert(entry_views(entries@) =~= entry_views(before).push(entry_views(self.entries@)[i as int]));
            i = i + 1;
            assert(entry_views(entries@) =~= entry_views(self.entries@).take(i as int));
        }
        assert(entry_views(self.entries@).take(i as int) =~= entry_views(self.entries@));
        FieldMap { entries }
    }

    /// Drops the value of `key`.
    pub fn remove(&mut self, key: &str)
        ensures
            final(self)@ == old(self)@.remove(key@),
    {
        let ghost s = entry_views(self.entries@);
        let mut kept: Vec<(String, String)> = Vec::new();
        let mut i: usize = 0;
        while i < self.entries.len()
            invariant
                i <= self.entries.len(),
                s == entry_views(self.entries@),
                entry_views(kept@) == without_key(s.take(i as int), key@),
            decreases self.entries.len() - i,
        {
            proof {
                reveal_with_fuel(Seq::filter, 1);
                assert(s.take(i + 1).drop_last() =~= s.take(i as int));
            }
            if !crate::text::str_eq(self.entries[i].0.as_str(), key) {
                let e = (self.entries[i].0.clone(), self.entries[i].1.clone());
                kept.push(e);
                assert(entry_views(kept@) =~= without_key(s.take(i as int), key@).push(s[i as int]));
            } else {
                assert(without_key(s.take(i + 1), key@) =~= without_key(s.take(i as int), key@));
            }
            i = i + 1;
        }
        assert(s.take(self.entries.len() as int) =~= s);
        proof {
            lemma_entries_map_without(s, key@);
        }
        self.entries = kept;
    }

    /// The keys that have values.
    pub fn keys(&self) -> (r: Vec<String>)
        ensures
            forall|k: Seq<char>| #[trigger] self@.contains_key(k) <==> id_views(r@).contains(k),
    {
        let ghost s = entry_views(self.entries@);
        let mut out: Vec<String> = Vec::new();
        let mut i: usize = 0;
        while i < self.entries.len()
            invariant
                i <= self.entries.len(),
                s == entry_views(self.entries@),
                id_views(out@) == s.take(i as int).map_values(|e: (Seq<char>, Seq<char>)| e.0),
            decreases self.entries.len() - i,
        {
            let k = self.entries[i].0.clone();
            assert(k@ == s[i as int].0);
            let ghost before = out@;
            out.push(k);
            assert(id_views(out@) =~= id_views(before).push(k@));
            assert(s.take(i + 1) =~= s.take(i as int).push(s[i as int]));
            i = i + 1;
            assert(id_views(out@) =~= s.take(i as int).map_values(|e: (Seq<char>, Seq<char>)| e.0));
        }
        assert(s.take(i as int) =~= s);
        assert forall|k: Seq<char>| #[trigger] self@.contains_key(k) <==> id_views(out@).contains(k) by {
            lemma_entries_map_dom(s, k);
            if self@.contains_key(k) {
                let j = choose|j: int| 0 <= j < s.len() && (#[trigger] s[j]).0 == k;
                assert(id_views(out@)[j] == k);
            }
            if id_views(out@).contains(k) {
                let j = choose|j: int| 0 <= j < id_views(out@).len() && id_views(out@)[j] == k;
                assert(s[j].0 == k);
            }
        }
        out
    }

    /// Stores `value` for `key`, replacing any earlier value.
    pub fn insert(&mut self, key: String, value: String)
        ensures
            final(self)@ == old(self)@.insert(key@, value@),
    {
        self.remove(key.as_str());
        let ghost before = entry_views(self.entries@);
        self.entries.push((key, value));
        assert(entry_views(self.entries@).drop_last() =~= before);
        assert(final(self)@ =~= old(self)@.insert(key@, value@));
    }
}

/// A set of item ids (a replacement for a hashed set of strings).
#[derive(Debug, Clone, PartialEq, Eq)]
pub struct IdSet {
    ids: Vec<String>,
}

pub open spec fn id_views(v: Seq<String>) -> Seq<Seq<char>> {
    v.map_values(|s: String| s@)
}

pub proof fn lemma_contains_push<A>(s: Seq<A>, a: A, x: A)
    ensures
        s.push(a).contains(x) <==> (s.contains(x) || x == a),
{
    if s.contains(x) {
        let i = choose|i: int| 0 <= i < s.len() && s[i] == x;
        assert(s.push(a)[i] == x);
    }
    if x == a {
        assert(s.push(a)[s.len() as int] == x);
    }
    if s.push(a).contains(x) {
        let j = choose|j: int| 0 <= j < s.push(a).len() && s.push(a)[j] == x;
        if j < s.len() {
            assert(s[j] == x);
        }
    }
}

impl View for IdSet {
    type V = Set<Seq<char>>;

    closed spec fn view(&self) -> Set<Seq<char>> {
        Set::new(|x: Seq<char>| id_views(self.ids@).contains(x))
    }
}

impl IdSet {
    pub fn new() -> (r: Self)
        ensures
            r@ == Set::<Seq<char>>::empty(),
    {
        let r = IdSet { ids: Vec::new() };
        assert(r@ =~= Set::<Seq<char>>::empty());
        r
    }

    /// A set holding exactly the given ids.
    pub fn from_ids(ids: Vec<String>) -> (r: Self)
        ensures
            forall|x: Seq<char>| r@.contains(x) <==> id_views(ids@).contains(x),
    {
        IdSet { ids }
    }

    pub fn contains(&self, id: &str) -> (r: bool)
        ensures
            r == self@.contains(id@),
    {
        let ghost s = id_views(self.ids@);
        let mut i: usize = 0;
        while i < self.ids.len()
            invariant
                i <= self.ids.len(),
                s == id_views(self.ids@),
                forall|j: int| 0 <= j < i ==> s[j] != id@,
            decreases self.ids.len() - i,
        {
            if crate::text::str_eq(self.ids[i].as_str(), id) {
                assert(s[i as int] == id@);
                return true;
            }
            i = i + 1;
        }
        false
    }

    /// Adds `id`; returns whether it was new.
    pub fn insert(&mut self, id: String) -> (r: bool)
        ensures
            final(self)@ == old(self)@.insert(id@),
            r == !old(self)@.contains(id@),
    {
        if self.contains(id.as_str()) {
            assert(final(self)@ =~= old(self)@.insert(id@));
            false
        } else {
            let ghost before = id_views(self.ids@);
            let ghost idv = id@;
            self.ids.push(id);
            assert(id_views(self.ids@) =~= before.push(idv));
            assert forall|x: Seq<char>| final(self)@.contains(x) <==> old(self)@.insert(
                idv,
            ).contains(x) by {
                lemma_contains_push(before, idv, x);
            }
            assert(final(self)@ =~= old(self)@.insert(idv));
            true
        }
    }

    /// Removes `id`; returns whether it was present.
    pub fn remove(&mut self, id: &str) -> (r: bool)
        ensures
            final(self)@ == old(self)@.remove(id@),
            r == old(self)@.contains(id@),
    {
        let ghost s = id_views(self.ids@);
        let present = self.contains(id);
        let mut kept: Vec<String> = Vec::new();
        let mut i: usize = 0;
        while i < self.ids.len()
            invariant
                i <= self.ids.len(),
                s == id_views(self.ids@),
                forall|x: Seq<char>|
                    id_views(kept@).contains(x) <==> (x != id@ && s.take(i as int).contains(x)),
            decreases self.ids.len() - i,
        {
            let ghost before = id_views(kept@);
            let ghost cur = s[i as int];
            assert(s.take(i + 1) =~= s.take(i as int).push(cur));
            if !crate::text::str_eq(self.ids[i].as_str(), id) {
                kept.push(self.ids[i].clone());
                assert(id_views(kept@) =~= before.push(cur));
                assert forall|x: Seq<char>|
                    id_views(kept@).contains(x) <==> (x != id@ && s.take(i + 1).contains(x)) by {
                    lemma_contains_push(before, cur, x);
                    lemma_contains_push(s.take(i as int), cur, x);
                }
            } else {
                assert forall|x: Seq<char>|
                    id_views(kept@).contains(x) <==> (x != id@ && s.take(i + 1).contains(x)) by {
                    lemma_contains_push(s.take(i as int), cur, x);
                }
            }
            i = i + 1;
        }
        assert(s.take(self.ids.len() as int) =~= s);
        self.ids = kept;
        assert(final(self)@ =~= old(self)@.remove(id@));
        present
    }

    /// Removes every id of `other`.
    pub fn remove_all(&mut self, other: &IdSet)
        ensures
            final(self)@ == old(self)@.difference(other@),
    {
        let ghost start = self@;
        let ids = other.to_vec();
        let mut k: usize = 0;
        while k < ids.len()
            invariant
                k <= ids.len(),
                forall|x: Seq<char>| other@.contains(x) <==> id_views(ids@).contains(x),
                self@ == start.difference(id_views(ids@).take(k as int).to_set()),
            decreases ids.len() - k,
        {
            self.remove(ids[k].as_str());
            proof {
                let t0 = id_views(ids@).take(k as int);
                let t1 = id_views(ids@).take(k + 1);
                assert(t1 =~= t0.push(ids@[k as int]@));
                assert forall|x: Seq<char>| t1.to_set().contains(x) <==> (t0.to_set().contains(x)
                    || x == ids@[k as int]@) by {
                    lemma_contains_push(t0, ids@[k as int]@, x);
                }
            }
            k = k + 1;
            assert(self@ =~= start.difference(id_views(ids@).take(k as int).to_set()));
        }
        assert(id_views(ids@).take(ids.len() as int) =~= id_views(ids@));
        assert(self@ =~= start.difference(other@));
    }

    /// Empties the set.
    pub fn clear(&mut self)
        ensures
            final(self)@ == Set::<Seq<char>>::empty(),
    {
        self.ids = Vec::new();
        assert(final(self)@ =~= Set::<Seq<char>>::empty());
    }

    /// The ids, in insertion order.
    pub fn to_vec(&self) -> (r: Vec<String>)
        ensures
            forall|x: Seq<char>| self@.contains(x) <==> id_views(r@).contains(x),
    {
        let mut out: Vec<String> = Vec::new();
        let mut i: usize = 0;
        while i < self.ids.len()
            invariant
                i <= self.ids.len(),
                id_views(out@) == id_views(self.ids@).take(i as int),
            decreases self.ids.len() - i,
        {
            let ghost before = id_views(out@);
            out.push(self.ids[i].clone());
            assert(id_views(out@) =~= before.push(self.ids@[i as int]@));
            i = i + 1;
            assert(id_views(out@) =~= id_views(self.ids@).take(i as int));
        }
        assert(id_views(self.ids@).take(self.ids.len() as int) =~= id_views(self.ids@));
        out
    }
}

} // verus!
