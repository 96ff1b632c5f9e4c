//! The flat key-value table that backs every keyspace of the contract:
//! point reads and writes keyed by path or identity strings, with no
//! native notion of hierarchy.  Viewed abstractly as a `Map` from the
//! key's character sequence to the view of the stored record.

use vstd::prelude::*;

verus! {

/// Abstraction of an association list as a map from key views to value views.
/// Later pairs shadow earlier ones; the table keeps keys distinct, so no
/// shadowing actually occurs.
pub open spec fn kv_view<V: View>(s: Seq<(String, V)>) -> Map<Seq<char>, V::V>
    decreases s.len(),
{
    if s.len() == 0 {
        Map::empty()
    } else {
        kv_view(s.drop_last()).insert(s.last().0@, s.last().1@)
    }
}

/// All keys of the underlying pair sequence are distinct.
pub open spec fn kv_keys_distinct<V: View>(s: Seq<(String, V)>) -> bool {
    forall|i: int, j: int| 0 <= i < j < s.len() ==> s[i].0@ != s[j].0@
}

proof fn lemma_kv_contains<V: View>(s: Seq<(String, V)>, k: Seq<char>)
    ensures
        kv_view(s).contains_key(k) <==> (exists|i: int| 0 <= i < s.len() && s[i].0@ == k),
    decreases s.len(),
{
    if s.len() > 0 {
        let prefix = s.drop_last();
        lemma_kv_contains(prefix, k);
        if s.last().0@ == k {
            assert(s[s.len() - 1].0@ == k);
        } else {
            if kv_view(s).contains_key(k) {
                let i = choose|i: int| 0 <= i < prefix.len() && prefix[i].0@ == k;
                assert(s[i].0@ == k);
            }
            if exists|i: int| 0 <= i < s.len() && s[i].0@ == k {
                let i = choose|i: int| 0 <= i < s.len() && s[i].0@ == k;
                assert(i < s.len() - 1);
                assert(prefix[i].0@ == k);
            }
        }
    }
}

proof fn lemma_kv_get<V: View>(s: Seq<(String, V)>, i: int)
    requires
        kv_keys_distinct(s),
        0 <= i < s.len(),
    ensures
        kv_view(s).contains_key(s[i].0@),
        kv_view(s)[s[i].0@] == s[i].1@,
    decreases s.len(),
{
    if i < s.len() - 1 {
        let prefix = s.drop_last();
        assert(prefix[i] == s[i]);
        lemma_kv_get(prefix, i);
        assert(s.last().0@ != s[i].0@);
    }
}

proof fn lemma_kv_update<V: View>(s: Seq<(String, V)>, i: int, p: (String, V))
    requires
        kv_keys_distinct(s),
        0 <= i < s.len(),
        p.0@ == s[i].0@,
    ensures
        kv_keys_distinct(s.update(i, p)),
        kv_view(s.update(i, p)) =~= kv_view(s).insert(p.0@, p.1@),
    decreases s.len(),
{
    let t = s.update(i, p);
    assert forall|x: int, y: int| 0 <= x < y < t.len() implies t[x].0@ != t[y].0@ by {
        assert(s[x].0@ != s[y].0@);
    }
    if i == s.len() - 1 {
        assert(t.drop_last() =~= s.drop_last());
    } else {
        lemma_kv_update(s.drop_last(), i, p);
        assert(t.drop_last() =~= s.drop_last().update(i, p));
        assert(t.last() == s.last());
        assert(s.last().0@ != p.0@);
    }
}

proof fn lemma_kv_remove<V: View>(s: Seq<(String, V)>, i: int)
    requires
        kv_keys_distinct(s),
        0 <= i < s.len(),
    ensures
        kv_keys_distinct(s.remove(i)),
        kv_view(s.remove(i)) =~= kv_view(s).remove(s[i].0@),
    decreases s.len(),
{
    let t = s.remove(i);
    assert forall|x: int, y: int| 0 <= x < y < t.len() implies t[x].0@ != t[y].0@ by {
        let sx: int = if x < i { x } else { x + 1 };
        let sy: int = if y < i { y } else { y + 1 };
        assert(t[x] == s[sx]);
        assert(t[y] == s[sy]);
        assert(s[sx].0@ != s[sy].0@);
    }
    if i == s.len() - 1 {
        assert(t =~= s.drop_last());
        lemma_kv_contains(s.drop_last(), s[i].0@);
        assert(!kv_view(s.drop_last()).contains_key(s[i].0@));
    } else {
        lemma_kv_remove(s.drop_last(), i);
        assert(t.drop_last() =~= s.drop_last().remove(i));
        assert(t.last() == s.last());
        assert(s.last().0@ != s[i].0@);
    }
}

/// A table of records keyed by strings, the only storage shape the host
/// offers.  The key set of the view is exactly the set of stored keys.
pub struct KvTable<V: View> {
    pairs: Vec<(String, V)>,
}

impl<V: View> View for KvTable<V> {
    type V = Map<Seq<char>, V::V>;

    closed spec fn view(&self) -> Map<Seq<char>, V::V> {
        kv_view(self.pairs@)
    }
}

impl<V: View> KvTable<V> {
    /// The table's keys are distinct; holds for every table the library
    /// builds, and every operation preserves it.
    pub closed spec fn wf(&self) -> bool {
        kv_keys_distinct(self.pairs@)
    }

    pub fn new() -> (r: KvTable<V>)
        ensures
            r.wf(),
            r@ == Map::<Seq<char>, V::V>::empty(),
    {
        KvTable { pairs: Vec::new() }
    }

    /// Index of the pair holding `key`, if any.
    fn find(&self, key: &String) -> (r: Option<usize>)
        ensures
            match r {
                Some(i) => i < self.pairs@.len() && self.pairs@[i as int].0@ == key@,
                None => forall|j: int| 0 <= j < self.pairs@.len() ==> self.pairs@[j].0@ != key@,
            },
    {
        let n = self.pairs.len();
        let mut i: usize = 0;
        while i < n
            invariant
                n == self.pairs@.len(),
                i <= n,
                forall|j: int| 0 <= j < i ==> self.pairs@[j].0@ != key@,
            decreases n - i,
        {
            if self.pairs[i].0 == *key {
                return Some(i);
            }
            i = i + 1;
        }
        None
    }

    pub fn contains_key(&self, key: &String) -> (b: bool)
        requires
            self.wf(),
        ensures
            b == self@.contains_key(key@),
    {
        proof {
            lemma_kv_contains(self.pairs@, key@);
        }
        self.find(key).is_some()
    }

    pub fn get(&self, key: &String) -> (r: Option<&V>)
        requires
            self.wf(),
        ensures
            match r {
                Some(v) => self@.contains_key(key@) && v@ == self@[key@],
                None => !self@.contains_key(key@),
            },
    {
        proof {
            lemma_kv_contains(self.pairs@, key@);
        }
        match self.find(key) {
            Some(i) => {
                proof {
                    lemma_kv_get(self.pairs@, i as int);
                }
                Some(&self.pairs[i].1)
            },
            None => None,
        }
    }

    pub fn insert(&mut self, key: String, value: V)
        requires
            old(self).wf(),
        ensures
            final(self).wf(),
            final(self)@ == old(self)@.insert(key@, value@),
    {
        proof {
            lemma_kv_contains(self.pairs@, key@);
        }
        match self.find(&key) {
            Some(i) => {
                let ghost s = self.pairs@;
                let ghost p = (key, value);
                self.pairs.set(i, (key, value));
                proof {
                    lemma_kv_update(s, i as int, p);
                    assert(s.update(i as int, p) =~= self.pairs@);
                    assert(self@ =~= old(self)@.insert(p.0@, p.1@));
                }
            },
            None => {
                let ghost s = self.pairs@;
                let ghost p = (key, value);
                self.pairs.push((key, value));
                proof {
                    assert(self.pairs@.drop_last() =~= s);
                    assert(self@ =~= old(self)@.insert(p.0@, p.1@));
                }
            },
        }
    }

    pub fn remove(&mut self, key: &String)
        requires
            old(self).wf(),
        ensures
            final(self).wf(),
            final(self)@ == old(self)@.remove(key@),
    {
        proof {
            lemma_kv_contains(self.pairs@, key@);
        }
        match self.find(key) {
            Some(i) => {
                let ghost s = self.pairs@;
                self.pairs.remove(i);
                proof {
                    lemma_kv_remove(s, i as int);
                    assert(self@ =~= old(self)@.remove(key@));
                }
            },
            None => {
                proof {
                    assert(self@ =~= old(self)@.remove(key@));
                }
            },
        }
    }
}

} // verus!
