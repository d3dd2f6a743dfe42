//! A map keyed by texts.

use vstd::prelude::*;

use crate::text::same_text;

verus! {

broadcast use vstd::string::group_string_axioms;

/// A map from texts to values, kept as a list in which no key occurs twice.
#[derive(Debug)]
pub struct StringMap<V> {
    entries: Vec<(String, V)>,
}

impl<V> StringMap<V> {
    /// The keys and values, in the order of the list.
    pub closed spec fn listed(self) -> Seq<(Seq<char>, V)> {
        Seq::new(self.entries@.len(), |i: int| (self.entries@[i].0@, self.entries@[i].1))
    }

    /// No key occurs twice.
    pub open spec fn wf(self) -> bool {
        forall|i: int, j: int|
            0 <= i < j < self.listed().len() ==> (#[trigger] self.listed()[i]).0 != (
            #[trigger] self.listed()[j]).0
    }

    /// The place of the key in the list.
    pub open spec fn place(self, key: Seq<char>) -> int {
        choose|i: int| 0 <= i < self.listed().len() && (#[trigger] self.listed()[i]).0 == key
    }

    /// The key is in the list.
    pub open spec fn has(self, key: Seq<char>) -> bool {
        exists|i: int| 0 <= i < self.listed().len() && (#[trigger] self.listed()[i]).0 == key
    }
}

impl<V> View for StringMap<V> {
    type V = Map<Seq<char>, V>;

    open spec fn view(&self) -> Map<Seq<char>, V> {
        Map::new(|key: Seq<char>| self.has(key), |key: Seq<char>| self.listed()[self.place(key)].1)
    }
}

/// Every entry of the list is one of the map.
pub proof fn listed_in_map<V>(m: StringMap<V>, i: int)
    requires
        m.wf(),
        0 <= i < m.listed().len(),
    ensures
        m@.contains_key(m.listed()[i].0),
        m@[m.listed()[i].0] == m.listed()[i].1,
{
    let key = m.listed()[i].0;
    assert(m.has(key));
    let j = m.place(key);
    assert(m.listed()[j].0 == key);
    if i < j {
        assert(m.listed()[i].0 != m.listed()[j].0);
    } else if j < i {
        assert(m.listed()[j].0 != m.listed()[i].0);
    }
}

/// The number of places `i` below `n` for which `p(i)` holds.
pub open spec fn count_below(n: nat, p: spec_fn(int) -> bool) -> nat
    decreases n,
{
    if n == 0 {
        0
    } else {
        count_below((n - 1) as nat, p) + if p(n - 1) {
            1nat
        } else {
            0nat
        }
    }
}

proof fn keys_below<V>(m: StringMap<V>, n: nat, p: spec_fn(Seq<char>, V) -> bool)
    requires
        m.wf(),
        n <= m.listed().len(),
    ensures
        ({
            let s = Set::new(
                |key: Seq<char>|
                    m.has(key) && m.place(key) < n && p(key, m@[key]),
            );
            &&& s.finite()
            &&& s.len() == count_below(n, |i: int| p(m.listed()[i].0, m.listed()[i].1))
        }),
    decreases n,
{
    let test = |i: int| p(m.listed()[i].0, m.listed()[i].1);
    let s = Set::new(|key: Seq<char>| m.has(key) && m.place(key) < n && p(key, m@[key]));
    if n == 0 {
        assert(s =~= Set::<Seq<char>>::empty());
    } else {
        let k = n - 1;
        keys_below(m, k as nat, p);
        let t = Set::new(|key: Seq<char>| m.has(key) && m.place(key) < k && p(key, m@[key]));
        let key = m.listed()[k].0;
        listed_in_map(m, k);
        assert(m.place(key) == k) by {
            let j = m.place(key);
            assert(m.listed()[j].0 == key);
            if k < j {
                assert(m.listed()[k].0 != m.listed()[j].0);
            } else if j < k {
                assert(m.listed()[j].0 != m.listed()[k].0);
            }
        }
        assert forall|other: Seq<char>| m.has(other) && m.place(other) == k implies other == key by {
            assert(m.listed()[m.place(other)].0 == other);
        }
        if test(k) {
            assert(s =~= t.insert(key));
        } else {
            assert(s =~= t);
        }
    }
}

/// The entries of a map that pass a test are as many as the places of the list
/// whose entry passes it.
pub proof fn count_is_len<V>(m: StringMap<V>, p: spec_fn(Seq<char>, V) -> bool)
    requires
        m.wf(),
    ensures
        ({
            let s = m@.dom().filter(|key: Seq<char>| p(key, m@[key]));
            &&& s.finite()
            &&& s.len() == count_below(
                m.listed().len(),
                |i: int| p(m.listed()[i].0, m.listed()[i].1),
            )
        }),
{
    let n = m.listed().len();
    keys_below(m, n, p);
    let s = Set::new(|key: Seq<char>| m.has(key) && m.place(key) < n && p(key, m@[key]));
    assert(s =~= m@.dom().filter(|key: Seq<char>| p(key, m@[key])));
}

proof fn count_all(n: nat, p: spec_fn(int) -> bool)
    requires
        forall|i: int| 0 <= i < n ==> #[trigger] p(i),
    ensures
        count_below(n, p) == n,
    decreases n,
{
    if n > 0 {
        count_all((n - 1) as nat, p);
    }
}

/// A map has as many keys as its list has entries.
pub proof fn keys_are_len<V>(m: StringMap<V>)
    requires
        m.wf(),
    ensures
        m@.dom().finite(),
        m@.dom().len() == m.listed().len(),
{
    let p = |key: Seq<char>, v: V| true;
    count_is_len(m, p);
    assert(m@.dom().filter(|key: Seq<char>| p(key, m@[key])) =~= m@.dom());
    count_all(m.listed().len(), |i: int| p(m.listed()[i].0, m.listed()[i].1));
}

impl<V> StringMap<V> {
    /// A map without entries.
    pub fn new() -> (r: Self)
        ensures
            r.wf(),
            r@ == Map::<Seq<char>, V>::empty(),
    {
        let r = StringMap { entries: Vec::new() };
        assert(r@ =~= Map::<Seq<char>, V>::empty());
        r
    }

    /// The number of entries.
    pub fn len(&self) -> (r: usize)
        requires
            self.wf(),
        ensures
            r == self@.dom().len(),
            r == self.listed().len(),
    {
        proof {
            keys_are_len(*self);
        }
        self.entries.len()
    }

    /// The entry at a place of the list.
    pub fn entry(&self, i: usize) -> (r: (&str, &V))
        requires
            self.wf(),
            i < self.listed().len(),
        ensures
            r.0@ == self.listed()[i as int].0,
            *r.1 == self.listed()[i as int].1,
            self@.contains_key(r.0@),
            self@[r.0@] == *r.1,
    {
        proof {
            listed_in_map(*self, i as int);
        }
        (self.entries[i].0.as_str(), &self.entries[i].1)
    }

    fn find(&self, key: &str) -> (r: Option<usize>)
        requires
            self.wf(),
        ensures
            match r {
                Some(i) => i < self.entries@.len() && self.listed()[i as int].0 == key@
                    && self@.contains_key(key@) && self@[key@] == self.listed()[i as int].1,
                None => !self@.contains_key(key@),
            },
    {
        let mut i: usize = 0;
        while i < self.entries.len()
            invariant
                self.wf(),
                i <= self.entries@.len(),
                forall|k: int| 0 <= k < i ==> (#[trigger] self.listed()[k]).0 != key@,
            decreases self.entries@.len() - i,
        {
            if same_text(self.entries[i].0.as_str(), key) {
                proof {
                    listed_in_map(*self, i as int);
                }
                return Some(i);
            }
            i += 1;
        }
        None
    }

    /// Whether the map has the key.
    pub fn contains_key(&self, key: &str) -> (r: bool)
        requires
            self.wf(),
        ensures
            r == self@.contains_key(key@),
    {
        self.find(key).is_some()
    }

    /// The value under the key.
    pub fn get(&self, key: &str) -> (r: Option<&V>)
        requires
            self.wf(),
        ensures
            match r {
                Some(v) => self@.contains_key(key@) && self@[key@] == *v,
                None => !self@.contains_key(key@),
            },
    {
        match self.find(key) {
            Some(i) => Some(&self.entries[i].1),
            None => None,
        }
    }

    /// Takes the entry out of the map.
    pub fn remove(&mut self, key: &str) -> (r: Option<V>)
        requires
            old(self).wf(),
        ensures
            final(self).wf(),
            final(self)@ == old(self)@.remove(key@),
            match r {
                Some(v) => old(self)@.contains_key(key@) && old(self)@[key@] == v,
                None => !old(self)@.contains_key(key@),
            },
    {
        match self.find(key) {
            Some(i) => {
                let ghost before = *self;
                let taken = self.entries.remove(i);
                proof {
                    let after = *self;
                    let n = before.listed().len() as int;
                    assert forall|k: int| 0 <= k < n - 1 implies #[trigger] after.listed()[k] == if k < i {
                        before.listed()[k]
                    } else {
                        before.listed()[k + 1]
                    } by {}
                    assert forall|a: int, b: int| 0 <= a < b < after.listed().len() implies (
                    #[trigger] after.listed()[a]).0 != (#[trigger] after.listed()[b]).0 by {
                        let x = if a < i { a } else { a + 1 };
                        let y = if b < i { b } else { b + 1 };
                        assert(before.listed()[x].0 != before.listed()[y].0);
                    }
                    assert forall|k: Seq<char>| after.has(k) implies #[trigger] before@.remove(
                        key@,
                    ).contains_key(k) && after@[k] == before@[k] by {
                        let a = after.place(k);
                        assert(after.listed()[a].0 == k);
                        let x = if a < i { a } else { a + 1 };
                        assert(before.listed()[x].0 == k);
                        listed_in_map(before, x);
                        listed_in_map(after, a);
                        if x < i {
                            assert(before.listed()[x].0 != before.listed()[i as int].0);
                        } else {
                            assert(before.listed()[i as int].0 != before.listed()[x].0);
                        }
                    }
                    assert forall|k: Seq<char>| #[trigger] before@.remove(key@).contains_key(
                        k,
                    ) implies after.has(k) by {
                        let x = before.place(k);
                        assert(before.listed()[x].0 == k);
                        let a = if x < i { x } else { x - 1 };
                        assert(after.listed()[a].0 == k);
                    }
                    assert(after@ =~= before@.remove(key@));
                }
                Some(taken.1)
            },
            None => {
                assert(self@ =~= old(self)@.remove(key@));
                None
            },
        }
    }

    /// Puts a value under a key, in the place of the one that was there.
    pub fn insert(&mut self, key: String, value: V)
        requires
            old(self).wf(),
        ensures
            final(self).wf(),
            final(self)@ == old(self)@.insert(key@, value),
    {
        let ghost start = *self;
        let _ = self.remove(key.as_str());
        let ghost before = *self;
        let ghost k0 = key@;
        let ghost v0 = value;
        self.entries.push((key, value));
        proof {
            let after = *self;
            let n = before.listed().len() as int;
            assert forall|k: int| 0 <= k < n implies #[trigger] after.listed()[k]
                == before.listed()[k] by {}
            assert(after.listed()[n] == (k0, v0));
            assert(!before.has(k0)) by {
                assert(!before@.contains_key(k0));
            }
            assert forall|a: int, b: int| 0 <= a < b < after.listed().len() implies (
            #[trigger] after.listed()[a]).0 != (#[trigger] after.listed()[b]).0 by {
                if b < n {
                    assert(before.listed()[a].0 != before.listed()[b].0);
                } else {
                    assert(before.listed()[a].0 != k0);
                }
            }
            assert(after.wf());
            assert forall|k: Seq<char>| #[trigger] after.has(k) implies start@.insert(
                k0,
                v0,
            ).contains_key(k) && after@[k] == start@.insert(k0, v0)[k] by {
                let a = after.place(k);
                assert(after.listed()[a].0 == k);
                listed_in_map(after, a);
                if a < n {
                    listed_in_map(before, a);
                    assert(before@.contains_key(k));
                }
            }
            assert forall|k: Seq<char>| #[trigger] start@.insert(k0, v0).contains_key(
                k,
            ) implies after.has(k) by {
                if k == k0 {
                    assert(after.listed()[n].0 == k0);
                } else {
                    assert(before@.contains_key(k));
                    let x = before.place(k);
                    assert(before.listed()[x].0 == k);
                    assert(after.listed()[x].0 == k);
                }
            }
            assert(after@ =~= start@.insert(k0, v0));
        }
    }
}

impl Clone for StringMap<usize> {
    fn clone(&self) -> (r: StringMap<usize>)
        ensures
            r.wf() == self.wf(),
            r@ == self@,
    {
        let mut r: StringMap<usize> = StringMap { entries: Vec::new() };
        let mut i: usize = 0;
        while i < self.entries.len()
            invariant
                i <= self.entries@.len(),
                r.entries@.len() == i,
                forall|k: int|
                    0 <= k < i ==> (#[trigger] r.entries@[k]).0@ == self.entries@[k].0@
                        && r.entries@[k].1 == self.entries@[k].1,
            decreases self.entries@.len() - i,
        {
            r.entries.push((self.entries[i].0.clone(), self.entries[i].1));
            i += 1;
        }
        assert(r.listed() =~= self.listed());
        assert(r@ =~= self@);
        r
    }
}

}
