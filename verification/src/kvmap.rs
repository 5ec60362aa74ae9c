//! A case-normalized key-value store for command and header lines.
//!
//! Keys are byte strings; a later insert for a key already present
//! overwrites its value, so the store never holds two entries for one
//! key.  The view is the finite map from keys to their latest values.

use vstd::prelude::*;

use crate::scan::bytes_eq;

verus! {

/// True when no two entries share a key.
pub open spec fn unique_keys(s: Seq<(Vec<u8>, Vec<u8>)>) -> bool {
    forall|i: int, j: int| 0 <= i < j < s.len() ==> s[i].0@ != s[j].0@
}

/// The map described by an entry list, later entries winning.
pub open spec fn entries_map(s: Seq<(Vec<u8>, Vec<u8>)>) -> Map<Seq<u8>, Seq<u8>>
    decreases s.len(),
{
    if s.len() == 0 {
        Map::empty()
    } else {
        entries_map(s.drop_last()).insert(s.last().0@, s.last().1@)
    }
}

proof fn lemma_map_facts(s: Seq<(Vec<u8>, Vec<u8>)>)
    requires
        unique_keys(s),
    ensures
        forall|k: Seq<u8>| #[trigger] entries_map(s).contains_key(k) <==> (exists|i: int|
            0 <= i < s.len() && s[i].0@ == k),
        forall|i: int| 0 <= i < s.len() ==> entries_map(s)[#[trigger] s[i].0@] == s[i].1@,
        entries_map(s).dom().finite(),
        entries_map(s).dom().len() == s.len(),
    decreases s.len(),
{
    broadcast use vstd::set::group_set_axioms, vstd::map::group_map_axioms;

    if s.len() == 0 {
    } else {
        let butlast = s.drop_last();
        let last = s.last();
        lemma_map_facts(butlast);
        assert(!entries_map(butlast).contains_key(last.0@)) by {
            if entries_map(butlast).contains_key(last.0@) {
                let i = choose|i: int| 0 <= i < butlast.len() && butlast[i].0@ == last.0@;
                assert(s[i].0@ == s[s.len() - 1].0@);
            }
        }
        assert forall|k: Seq<u8>| #[trigger] entries_map(s).contains_key(k) implies (exists|i: int|
            0 <= i < s.len() && s[i].0@ == k) by {
            if k == last.0@ {
                assert(s[s.len() - 1].0@ == k);
            } else {
                let i = choose|i: int| 0 <= i < butlast.len() && butlast[i].0@ == k;
                assert(s[i].0@ == k);
            }
        }
        assert forall|k: Seq<u8>| (exists|i: int| 0 <= i < s.len() && s[i].0@ == k)
            implies #[trigger] entries_map(s).contains_key(k) by {
            let i = choose|i: int| 0 <= i < s.len() && s[i].0@ == k;
            if i < s.len() - 1 {
                assert(butlast[i].0@ == k);
            }
        }
        assert forall|i: int| 0 <= i < s.len() implies entries_map(s)[#[trigger] s[i].0@]
            == s[i].1@ by {
            if i < s.len() - 1 {
                assert(butlast[i].0@ == s[i].0@ && butlast[i].1@ == s[i].1@);
                assert(s[i].0@ != last.0@);
            }
        }
    }
}

proof fn lemma_entries_update(s: Seq<(Vec<u8>, Vec<u8>)>, idx: int, kv: (Vec<u8>, Vec<u8>))
    requires
        unique_keys(s),
        0 <= idx < s.len(),
        s[idx].0@ == kv.0@,
    ensures
        unique_keys(s.update(idx, kv)),
        entries_map(s.update(idx, kv)) == entries_map(s).insert(kv.0@, kv.1@),
    decreases s.len(),
{
    let t = s.update(idx, kv);
    assert(forall|i: int| 0 <= i < s.len() ==> t[i].0@ == s[i].0@);
    if idx == s.len() - 1 {
        assert(t.drop_last() =~= s.drop_last());
        assert(entries_map(t) == entries_map(s.drop_last()).insert(kv.0@, kv.1@));
        assert(entries_map(s.drop_last()).insert(s.last().0@, s.last().1@).insert(kv.0@, kv.1@)
            =~= entries_map(s.drop_last()).insert(kv.0@, kv.1@));
    } else {
        assert(t.drop_last() =~= s.drop_last().update(idx, kv));
        lemma_entries_update(s.drop_last(), idx, kv);
        assert(s.last().0@ != kv.0@);
        assert(t.last() == s.last());
        assert(entries_map(s.drop_last()).insert(kv.0@, kv.1@).insert(s.last().0@, s.last().1@)
            =~= entries_map(s.drop_last()).insert(s.last().0@, s.last().1@).insert(
            kv.0@,
            kv.1@,
        ));
    }
}

/// The command and header store: one entry per key, last write wins.
pub struct KvMap {
    entries: Vec<(Vec<u8>, Vec<u8>)>,
}

impl View for KvMap {
    type V = Map<Seq<u8>, Seq<u8>>;

    closed spec fn view(&self) -> Map<Seq<u8>, Seq<u8>> {
        entries_map(self.entries@)
    }
}

impl KvMap {
    /// No two stored entries share a key.
    pub closed spec fn wf(&self) -> bool {
        unique_keys(self.entries@)
    }

    /// An empty store.
    pub fn new() -> (m: KvMap)
        ensures
            m.wf(),
            m@ == Map::<Seq<u8>, Seq<u8>>::empty(),
    {
        KvMap { entries: Vec::new() }
    }

    /// Stores `v` under `k`, overwriting any value the key already has:
    /// inserting the same key twice leaves exactly one entry for it,
    /// holding the later value.
    pub fn insert(&mut self, k: Vec<u8>, v: Vec<u8>)
        requires
            old(self).wf(),
        ensures
            final(self).wf(),
            final(self)@ == old(self)@.insert(k@, v@),
    {
        let ghost s0 = self.entries@;
        let n: usize = self.entries.len();
        let mut i: usize = 0;
        while i < n
            invariant
                unique_keys(s0),
                self.entries@ == s0,
                old(self).entries@ == s0,
                n == s0.len(),
                i <= n,
                forall|j: int| 0 <= j < i ==> s0[j].0@ != k@,
            decreases n - i,
        {
            if bytes_eq(self.entries[i].0.as_slice(), k.as_slice()) {
                self.entries[i] = (k, v);
                proof {
                    let val = self.entries@[i as int];
                    assert(self.entries@ == s0.update(i as int, val));
                    assert(val.0@ == k@ && val.1@ == v@);
                    lemma_entries_update(s0, i as int, val);
                }
                return ;
            }
            i = i + 1;
        }
        self.entries.push((k, v));
        proof {
            let s1 = self.entries@;
            assert(s1.drop_last() =~= s0);
            assert(forall|j: int| 0 <= j < s0.len() ==> s1[j] == s0[j]);
            assert(s1.last().0@ == k@ && s1.last().1@ == v@);
        }
    }

    /// The value stored under `k`, if any.
    pub fn get(&self, k: &Vec<u8>) -> (r: Option<&Vec<u8>>)
        requires
            self.wf(),
        ensures
            match r {
                Some(v) => self@.contains_key(k@) && v@ == self@[k@],
                None => !self@.contains_key(k@),
            },
    {
        proof {
            lemma_map_facts(self.entries@);
        }
        let n: usize = self.entries.len();
        let mut i: usize = 0;
        while i < n
            invariant
                self.wf(),
                n == self.entries@.len(),
                i <= n,
                forall|j: int| 0 <= j < i ==> self.entries@[j].0@ != k@,
                forall|kk: Seq<u8>| #[trigger] entries_map(self.entries@).contains_key(kk) <==> (
                exists|jj: int| 0 <= jj < self.entries@.len() && self.entries@[jj].0@ == kk),
                forall|jj: int| 0 <= jj < self.entries@.len() ==> entries_map(self.entries@)[
                    #[trigger] self.entries@[jj].0@] == self.entries@[jj].1@,
            decreases n - i,
        {
            if bytes_eq(self.entries[i].0.as_slice(), k.as_slice()) {
                return Some(&self.entries[i].1);
            }
            i = i + 1;
        }
        None
    }

    /// How many keys are stored.
    pub fn len(&self) -> (n: usize)
        requires
            self.wf(),
        ensures
            n == self@.dom().len(),
    {
        proof {
            lemma_map_facts(self.entries@);
        }
        self.entries.len()
    }
}

/// Inserting value `v1` under key `k` and then `v2` under the same key
/// gives the same map as inserting `v2` alone: the key maps to `v2` and
/// no second entry for `k` exists, so the key count also matches.
pub proof fn lemma_insert_same_key_overwrites(
    m: Map<Seq<u8>, Seq<u8>>,
    k: Seq<u8>,
    v1: Seq<u8>,
    v2: Seq<u8>,
)
    ensures
        m.insert(k, v1).insert(k, v2) == m.insert(k, v2),
        m.insert(k, v1).insert(k, v2)[k] == v2,
        m.insert(k, v1).insert(k, v2).dom() == m.insert(k, v2).dom(),
{
    broadcast use vstd::map::group_map_axioms;

    assert(m.insert(k, v1).insert(k, v2) =~= m.insert(k, v2));
}

} // verus!
