//! A small map from strings to strings, kept as a vector of entries with
//! distinct keys, for the per-image thumbnail and user metadata maps.

use vstd::prelude::*;
use crate::text;
use crate::text::{chars_eq, str_chars, string_from_chars};
use crate::sigv4::pairs_map;

verus! {

broadcast use text::lemma_chars_deep_view;

/// String keys to string values.
pub struct StringMap {
    entries: Vec<(Vec<char>, Vec<char>)>,
}

/// No key occurs twice.
pub open spec fn distinct_keys(ps: Seq<(Seq<char>, Seq<char>)>) -> bool {
    forall|i: int, j: int| 0 <= i < j < ps.len() ==> (#[trigger] ps[i]).0 != (#[trigger] ps[j]).0
}

impl StringMap {
    /// The entries as character sequences.
    pub closed spec fn entries_view(&self) -> Seq<(Seq<char>, Seq<char>)> {
        self.entries.deep_view()
    }

    /// The keys are distinct.
    pub closed spec fn wf(&self) -> bool {
        distinct_keys(self.entries_view())
    }
}

impl View for StringMap {
    type V = Map<Seq<char>, Seq<char>>;

    closed spec fn view(&self) -> Map<Seq<char>, Seq<char>> {
        pairs_map(self.entries_view())
    }
}

proof fn lemma_absent(ps: Seq<(Seq<char>, Seq<char>)>, k: Seq<char>)
    requires
        forall|m: int| 0 <= m < ps.len() ==> (#[trigger] ps[m]).0 != k,
    ensures
        !pairs_map(ps).contains_key(k),
    decreases ps.len(),
{
    if ps.len() > 0 {
        assert forall|m: int| 0 <= m < ps.drop_last().len() implies (#[trigger] ps.drop_last()[m]).0 != k by {
            assert(ps.drop_last()[m] == ps[m]);
        }
        lemma_absent(ps.drop_last(), k);
    }
}

proof fn lemma_present(ps: Seq<(Seq<char>, Seq<char>)>, j: int)
    requires
        distinct_keys(ps),
        0 <= j < ps.len(),
    ensures
        pairs_map(ps).contains_key(ps[j].0),
        pairs_map(ps)[ps[j].0] == ps[j].1,
    decreases ps.len(),
{
    if j < ps.len() - 1 {
        let d = ps.drop_last();
        assert(d[j] == ps[j]);
        assert(distinct_keys(d)) by {
            assert forall|a: int, b: int| 0 <= a < b < d.len() implies (#[trigger] d[a]).0 != (#[trigger] d[b]).0 by {
                assert(d[a] == ps[a] && d[b] == ps[b]);
            }
        }
        lemma_present(d, j);
        assert(ps[j].0 != ps[ps.len() - 1].0);
    }
}

proof fn lemma_update(ps: Seq<(Seq<char>, Seq<char>)>, j: int, v: Seq<char>)
    requires
        distinct_keys(ps),
        0 <= j < ps.len(),
    ensures
        pairs_map(ps.update(j, (ps[j].0, v))) == pairs_map(ps).insert(ps[j].0, v),
    decreases ps.len(),
{
    let k = ps[j].0;
    let u = ps.update(j, (k, v));
    if j == ps.len() - 1 {
        assert(u.drop_last() =~= ps.drop_last());
        assert(pairs_map(u) =~= pairs_map(ps).insert(k, v));
    } else {
        let d = ps.drop_last();
        assert(distinct_keys(d)) by {
            assert forall|a: int, b: int| 0 <= a < b < d.len() implies (#[trigger] d[a]).0 != (#[trigger] d[b]).0 by {
                assert(d[a] == ps[a] && d[b] == ps[b]);
            }
        }
        assert(d[j] == ps[j]);
        lemma_update(d, j, v);
        assert(u.drop_last() =~= d.update(j, (k, v)));
        assert(u.last() == ps.last());
        assert(ps.last().0 != k);
        assert(pairs_map(u) =~= pairs_map(ps).insert(k, v));
    }
}

proof fn lemma_remove(ps: Seq<(Seq<char>, Seq<char>)>, j: int)
    requires
        distinct_keys(ps),
        0 <= j < ps.len(),
    ensures
        pairs_map(ps.remove(j)) == pairs_map(ps).remove(ps[j].0),
        distinct_keys(ps.remove(j)),
    decreases ps.len(),
{
    let k = ps[j].0;
    let r = ps.remove(j);
    let d = ps.drop_last();
    assert(distinct_keys(d)) by {
        assert forall|a: int, b: int| 0 <= a < b < d.len() implies (#[trigger] d[a]).0 != (#[trigger] d[b]).0 by {
            assert(d[a] == ps[a] && d[b] == ps[b]);
        }
    }
    assert(distinct_keys(r)) by {
        assert forall|a: int, b: int| 0 <= a < b < r.len() implies (#[trigger] r[a]).0 != (#[trigger] r[b]).0 by {
            let a2 = if a < j { a } else { a + 1 };
            let b2 = if b < j { b } else { b + 1 };
            assert(r[a] == ps[a2] && r[b] == ps[b2]);
        }
    }
    if j == ps.len() - 1 {
        assert(r =~= d);
        assert forall|m: int| 0 <= m < d.len() implies (#[trigger] d[m]).0 != k by {
            assert(d[m] == ps[m]);
        }
        lemma_absent(d, k);
        assert(pairs_map(r) =~= pairs_map(ps).remove(k));
    } else {
        assert(d[j] == ps[j]);
        lemma_remove(d, j);
        assert(r.drop_last() =~= d.remove(j));
        assert(r.last() == ps.last());
        assert(ps.last().0 != k);
        assert(pairs_map(r) =~= pairs_map(ps).remove(k));
    }
}

impl StringMap {
    /// An empty map.
    pub fn new() -> (r: StringMap)
        ensures
            r.wf(),
            r@ == Map::<Seq<char>, Seq<char>>::empty(),
    {
        let r = StringMap { entries: Vec::new() };
        assert(r.entries_view() =~= Seq::<(Seq<char>, Seq<char>)>::empty());
        r
    }

    /// A copy of the map.
    pub fn duplicate(&self) -> (r: StringMap)
        ensures
            r@ == self@,
            r.wf() == self.wf(),
    {
        let mut entries: Vec<(Vec<char>, Vec<char>)> = Vec::new();
        let mut i: usize = 0;
        while i < self.entries.len()
            invariant
                i <= self.entries.len(),
                entries.len() == i,
                entries.deep_view() == self.entries_view().subrange(0, i as int),
            decreases self.entries.len() - i,
        {
            let k = crate::text::chars_from(&self.entries[i].0, 0);
            let v = crate::text::chars_from(&self.entries[i].1, 0);
            assert(k@ =~= self.entries@[i as int].0@);
            assert(v@ =~= self.entries@[i as int].1@);
            let ghost before = entries.deep_view();
            entries.push((k, v));
            assert(self.entries_view()[i as int] == (self.entries@[i as int].0@, self.entries@[i as int].1@));
            assert(entries.deep_view() =~= before.push(self.entries_view()[i as int]));
            assert(self.entries_view().subrange(0, i + 1) =~= self.entries_view().subrange(0, i as int).push(self.entries_view()[i as int]));
            i = i + 1;
        }
        assert(self.entries_view().subrange(0, i as int) =~= self.entries_view());
        StringMap { entries }
    }

    fn position(&self, key: &[char]) -> (r: Option<usize>)
        requires
            self.wf(),
        ensures
            match r {
                Some(j) => j < self.entries_view().len() && self.entries_view()[j as int].0 == key@,
                None => forall|m: int| 0 <= m < self.entries_view().len() ==> (#[trigger] self.entries_view()[m]).0 != key@,
            },
    {
        let mut i: usize = 0;
        while i < self.entries.len()
            invariant
                i <= self.entries.len(),
                self.entries_view() == self.entries.deep_view(),
                forall|m: int| 0 <= m < i ==> (#[trigger] self.entries_view()[m]).0 != key@,
            decreases self.entries.len() - i,
        {
            assert(self.entries_view()[i as int] == (self.entries@[i as int].0@, self.entries@[i as int].1@));
            if chars_eq(&self.entries[i].0, key) {
                return Some(i);
            }
            i = i + 1;
        }
        None
    }

    /// The value of `key`, if any.
    pub fn get(&self, key: &str) -> (r: Option<String>)
        requires
            self.wf(),
        ensures
            match r {
                Some(v) => self@.contains_key(key@) && self@[key@] == v@,
                None => !self@.contains_key(key@),
            },
    {
        let k = str_chars(key);
        match self.position(&k) {
            Some(j) => {
                proof {
                    lemma_present(self.entries_view(), j as int);
                }
                assert(self.entries_view()[j as int] == (self.entries@[j as int].0@, self.entries@[j as int].1@));
                Some(string_from_chars(&self.entries[j].1))
            },
            None => {
                proof {
                    lemma_absent(self.entries_view(), k@);
                }
                None
            },
        }
    }

    /// Set `key` to `value`.
    pub fn insert(&mut self, key: &str, value: &str)
        requires
            old(self).wf(),
        ensures
            final(self).wf(),
            final(self)@ == old(self)@.insert(key@, value@),
    {
        let k = str_chars(key);
        let v = str_chars(value);
        let ghost before = self.entries_view();
        match self.position(&k) {
            Some(j) => {
                proof {
                    lemma_update(before, j as int, v@);
                }
                let ghost kv = self.entries@[j as int].0@;
                self.entries.set(j, (k, v));
                assert(self.entries_view() =~= before.update(j as int, (before[j as int].0, v@)));
                assert(self@ == old(self)@.insert(key@, value@));
                assert(self.wf()) by {
                    let e = self.entries_view();
                    assert forall|a: int, b: int| 0 <= a < b < e.len() implies (#[trigger] e[a]).0 != (#[trigger] e[b]).0 by {
                        assert(e[a].0 == before[a].0 && e[b].0 == before[b].0);
                    }
                }
            },
            None => {
                self.entries.push((k, v));
                assert(self.entries_view() =~= before.push((key@, value@)));
                assert(before.push((key@, value@)).drop_last() =~= before);
                assert(self@ == old(self)@.insert(key@, value@));
                assert(self.wf()) by {
                    let e = self.entries_view();
                    assert forall|a: int, b: int| 0 <= a < b < e.len() implies (#[trigger] e[a]).0 != (#[trigger] e[b]).0 by {
                        if b == e.len() - 1 {
                            assert(e[a] == before[a]);
                        } else {
                            assert(e[a] == before[a] && e[b] == before[b]);
                        }
                    }
                }
            },
        }
    }

    /// The entries; read into a map they give this map, and each key comes
    /// once where the map is well formed.
    pub fn to_pairs(&self) -> (r: Vec<(String, String)>)
        ensures
            distinct_keys(r@.map_values(|p: (String, String)| (p.0@, p.1@))) == self.wf(),
            pairs_map(r@.map_values(|p: (String, String)| (p.0@, p.1@))) == self@,
    {
        let mut r: Vec<(String, String)> = Vec::new();
        let mut i: usize = 0;
        while i < self.entries.len()
            invariant
                i <= self.entries.len(),
                r.len() == i,
                forall|k: int| 0 <= k < i ==> (#[trigger] r@[k]).0@ == self.entries_view()[k].0
                    && r@[k].1@ == self.entries_view()[k].1,
            decreases self.entries.len() - i,
        {
            assert(self.entries_view()[i as int] == (self.entries@[i as int].0@, self.entries@[i as int].1@));
            r.push((string_from_chars(&self.entries[i].0), string_from_chars(&self.entries[i].1)));
            i = i + 1;
        }
        assert(r@.map_values(|p: (String, String)| (p.0@, p.1@)) =~= self.entries_view());
        r
    }

    /// Remove `key` if present.
    pub fn remove(&mut self, key: &str)
        requires
            old(self).wf(),
        ensures
            final(self).wf(),
            final(self)@ == old(self)@.remove(key@),
    {
        let k = str_chars(key);
        let ghost before = self.entries_view();
        match self.position(&k) {
            Some(j) => {
                proof {
                    lemma_remove(before, j as int);
                }
                self.entries.remove(j);
                assert(self.entries_view() =~= before.remove(j as int));
            },
            None => {
                proof {
                    lemma_absent(before, k@);
                }
                assert(self@ =~= old(self)@.remove(key@));
            },
        }
    }
}

} // verus!
