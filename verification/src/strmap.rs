//! A map keyed by strings, held as a vector of distinct keys with their values.
use vstd::prelude::*;
use crate::text::str_eq;

verus! {

/// The map a sequence of key/value pairs denotes (later pairs win).
pub open spec fn pairs_map<V>(s: Seq<(String, V)>) -> Map<Seq<char>, V>
    decreases s.len(),
{
    if s.len() == 0 {
        Map::empty()
    } else {
        pairs_map(s.drop_last()).insert(s.last().0@, s.last().1)
    }
}

/// Keys of `s` are pairwise distinct.
pub open spec fn distinct_keys<V>(s: Seq<(String, V)>) -> bool {
    forall|i: int, j: int| 0 <= i < j < s.len() ==> (#[trigger] s[i]).0@ != (#[trigger] s[j]).0@
}

pub proof fn lemma_pairs_map<V>(s: Seq<(String, V)>)
    requires
        distinct_keys(s),
    ensures
        forall|i: int| 0 <= i < s.len() ==> #[trigger] pairs_map(s).contains_key(s[i].0@) && pairs_map(s)[s[i].0@] == s[i].1,
        forall|k: Seq<char>| #[trigger] pairs_map(s).contains_key(k) ==> exists|i: int| 0 <= i < s.len() && s[i].0@ == k,
    decreases s.len(),
{
    if s.len() > 0 {
        let t = s.drop_last();
        assert(distinct_keys(t));
        lemma_pairs_map(t);
        assert forall|i: int| 0 <= i < s.len() implies #[trigger] pairs_map(s).contains_key(s[i].0@) && pairs_map(s)[s[i].0@] == s[i].1 by {
            if i < s.len() - 1 {
                assert(t[i] == s[i]);
                assert(pairs_map(t).contains_key(t[i].0@));
                assert(s[i].0@ != s[s.len() - 1].0@);
            }
        }
        assert forall|k: Seq<char>| #[trigger] pairs_map(s).contains_key(k) implies exists|i: int| 0 <= i < s.len() && s[i].0@ == k by {
            if k != s.last().0@ {
                assert(pairs_map(t).contains_key(k));
                let i = choose|i: int| 0 <= i < t.len() && t[i].0@ == k;
                assert(s[i] == t[i]);
            } else {
                assert(s[s.len() - 1].0@ == k);
            }
        }
    }
}

/// A string-keyed map (used where the engine keys values by widget or variable name).
#[derive(Debug)]
pub struct StrMap<V> {
    entries: Vec<(String, V)>,
}

impl<V> StrMap<V> {
    #[verifier::type_invariant]
    closed spec fn inv(self) -> bool {
        distinct_keys(self.entries@)
    }

    /// The map's contents.
    pub closed spec fn view(&self) -> Map<Seq<char>, V> {
        pairs_map(self.entries@)
    }

    /// The keys in insertion order.
    pub closed spec fn key_seq(&self) -> Seq<Seq<char>> {
        self.entries@.map_values(|e: (String, V)| e.0@)
    }

    /// An empty map.
    pub fn new() -> (m: Self)
        ensures
            m.view() == Map::<Seq<char>, V>::empty(),
            m.key_seq() == Seq::<Seq<char>>::empty(),
    {
        let m = StrMap { entries: Vec::new() };
        assert(m.key_seq() =~= Seq::<Seq<char>>::empty());
        m
    }

    fn find(&self, k: &str) -> (r: Option<usize>)
        ensures
            match r {
                Some(i) => i < self.entries@.len() && self.entries@[i as int].0@ == k@,
                None => forall|i: int| 0 <= i < self.entries@.len() ==> (#[trigger] self.entries@[i]).0@ != k@,
            },
    {
        let mut i: usize = 0;
        while i < self.entries.len()
            invariant
                i <= self.entries@.len(),
                forall|j: int| 0 <= j < i ==> (#[trigger] self.entries@[j]).0@ != k@,
            decreases self.entries.len() - i,
        {
            if str_eq(self.entries[i].0.as_str(), k) {
                return Some(i);
            }
            i = i + 1;
        }
        None
    }

    /// Whether `k` has a value.
    pub fn contains_key(&self, k: &str) -> (b: bool)
        ensures
            b == self.view().contains_key(k@),
    {
        proof {
            use_type_invariant(self);
            lemma_pairs_map(self.entries@);
        }
        match self.find(k) {
            Some(i) => {
                assert(pairs_map(self.entries@).contains_key(self.entries@[i as int].0@));
                true
            },
            None => {
                proof {
                    if self.view().contains_key(k@) {
                        let i = choose|i: int| 0 <= i < self.entries@.len() && self.entries@[i].0@ == k@;
                        assert(self.entries@[i].0@ != k@);
                    }
                }
                false
            },
        }
    }

    /// The value of `k`, if any.
    pub fn get(&self, k: &str) -> (r: Option<&V>)
        ensures
            match r {
                Some(v) => self.view().contains_key(k@) && *v == self.view()[k@],
                None => !self.view().contains_key(k@),
            },
    {
        proof {
            use_type_invariant(self);
            lemma_pairs_map(self.entries@);
        }
        match self.find(k) {
            Some(i) => {
                assert(pairs_map(self.entries@).contains_key(self.entries@[i as int].0@));
                Some(&self.entries[i].1)
            },
            None => {
                proof {
                    if self.view().contains_key(k@) {
                        let i = choose|i: int| 0 <= i < self.entries@.len() && self.entries@[i].0@ == k@;
                        assert(self.entries@[i].0@ != k@);
                    }
                }
                None
            },
        }
    }

    /// Set the value of `k` (replacing any earlier value; a new key goes last).
    pub fn insert(&mut self, k: String, v: V)
        ensures
            final(self).view() == old(self).view().insert(k@, v),
            old(self).view().contains_key(k@) ==> final(self).key_seq() == old(self).key_seq(),
            !old(self).view().contains_key(k@) ==> final(self).key_seq() == old(self).key_seq().push(k@),
    {
        proof {
            use_type_invariant(&*self);
            lemma_pairs_map(self.entries@);
        }
        let ghost old_entries = self.entries@;
        let ghost old_map = self.view();
        match self.find(k.as_str()) {
            Some(i) => {
                let ghost key = old_entries[i as int].0;
                let mut entries: Vec<(String, V)> = Vec::new();
                std::mem::swap(&mut entries, &mut self.entries);
                entries.set(i, (k, v));
                proof {
                    let s = entries@;
                    assert forall|a: int, b: int| 0 <= a < b < s.len() implies (#[trigger] s[a]).0@ != (#[trigger] s[b]).0@ by {
                        assert(old_entries[a].0@ != old_entries[b].0@);
                    }
                    lemma_pairs_map(s);
                    assert(pairs_map(s) =~= old_map.insert(k@, v)) by {
                        assert forall|key2: Seq<char>| #[trigger] pairs_map(s).contains_key(key2) <==> old_map.insert(k@, v).contains_key(key2) by {
                            if pairs_map(s).contains_key(key2) {
                                let j = choose|j: int| 0 <= j < s.len() && s[j].0@ == key2;
                                if j != i {
                                    assert(s[j] == old_entries[j]);
                                    assert(old_map.contains_key(old_entries[j].0@));
                                }
                            }
                            if key2 == k@ {
                                assert(s[i as int].0@ == k@);
                                assert(pairs_map(s).contains_key(s[i as int].0@));
                            }
                            if old_map.contains_key(key2) && key2 != k@ {
                                let j = choose|j: int| 0 <= j < old_entries.len() && old_entries[j].0@ == key2;
                                assert(s[j] == old_entries[j]);
                                assert(pairs_map(s).contains_key(s[j].0@));
                            }
                        }
                        assert forall|key2: Seq<char>| #[trigger] pairs_map(s).contains_key(key2) implies pairs_map(s)[key2] == old_map.insert(k@, v)[key2] by {
                            let j = choose|j: int| 0 <= j < s.len() && s[j].0@ == key2;
                            if j != i {
                                assert(s[j] == old_entries[j]);
                            }
                        }
                    }
                }
                self.entries = entries;
                assert(self.key_seq() =~= old(self).key_seq()) by {
                    assert(self.entries@.map_values(|e: (String, V)| e.0@)[i as int] == k@);
                }
            },
            None => {
                let ghost kv = k@;
                let mut entries: Vec<(String, V)> = Vec::new();
                std::mem::swap(&mut entries, &mut self.entries);
                entries.push((k, v));
                proof {
                    let s = entries@;
                    assert(s.drop_last() =~= old_entries);
                    assert forall|a: int, b: int| 0 <= a < b < s.len() implies (#[trigger] s[a]).0@ != (#[trigger] s[b]).0@ by {
                        if b < s.len() - 1 {
                            assert(old_entries[a].0@ != old_entries[b].0@);
                        } else {
                            assert(s[a] == old_entries[a]);
                        }
                    }
                    if old_map.contains_key(kv) {
                        let j = choose|j: int| 0 <= j < old_entries.len() && old_entries[j].0@ == kv;
                        assert(old_entries[j].0@ != kv);
                    }
                }
                self.entries = entries;
                proof {
                    assert(self.key_seq() =~= old(self).key_seq().push(kv));
                }
            },
        }
    }

    /// Number of keys.
    pub fn len(&self) -> (n: usize)
        ensures
            n == self.key_seq().len(),
    {
        self.entries.len()
    }

    /// The keys, in insertion order.
    pub fn keys(&self) -> (r: Vec<String>)
        ensures
            crate::text::views(r@) == self.key_seq(),
    {
        let mut r: Vec<String> = Vec::new();
        let mut i: usize = 0;
        while i < self.entries.len()
            invariant
                i <= self.entries@.len(),
                crate::text::views(r@) == self.key_seq().take(i as int),
            decreases self.entries.len() - i,
        {
            let ghost before = r@;
            let key = self.entries[i].0.clone();
            r.push(key);
            assert(crate::text::views(r@) =~= crate::text::views(before).push(key@));
            assert(self.key_seq()[i as int] == self.entries@[i as int].0@);
            assert(crate::text::views(r@) =~= self.key_seq().take(i as int + 1));
            i = i + 1;
        }
        assert(self.key_seq().take(i as int) =~= self.key_seq());
        r
    }
}

} // verus!
