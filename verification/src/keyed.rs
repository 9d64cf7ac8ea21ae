//! Tables keyed by text, held as lists of distinct keys (vstd models
//! `HashMap` keys of integer types, not `String` ones), and tables keyed by id.
use std::collections::HashMap;
use vstd::prelude::*;

verus! {

/// The map a list of entries stands for; a later entry wins over an earlier one.
pub open spec fn text_map_of<V>(s: Seq<(String, V)>) -> Map<Seq<char>, V>
    decreases s.len(),
{
    if s.len() == 0 {
        Map::empty()
    } else {
        text_map_of(s.drop_last()).insert(s.last().0@, s.last().1)
    }
}

/// No key occurs twice.
pub open spec fn distinct_text_keys<V>(s: Seq<(String, V)>) -> bool {
    forall|i: int, j: int| 0 <= i < j < s.len() ==> s[i].0@ != s[j].0@
}

pub proof fn lemma_text_map_of_dom<V>(s: Seq<(String, V)>, k: Seq<char>)
    ensures
        text_map_of(s).dom().contains(k) <==> exists|i: int| 0 <= i < s.len() && s[i].0@ == k,
    decreases s.len(),
{
    if s.len() > 0 {
        lemma_text_map_of_dom(s.drop_last(), k);
        if text_map_of(s).dom().contains(k) && s.last().0@ != k {
            let i = choose|i: int| 0 <= i < s.drop_last().len() && s.drop_last()[i].0@ == k;
            assert(s[i].0@ == k);
        }
        if exists|i: int| 0 <= i < s.len() && s[i].0@ == k {
            let i = choose|i: int| 0 <= i < s.len() && s[i].0@ == k;
            if i < s.len() - 1 {
                assert(s.drop_last()[i].0@ == k);
            }
        }
    }
}

pub proof fn lemma_text_map_of_index<V>(s: Seq<(String, V)>, i: int)
    requires
        distinct_text_keys(s),
        0 <= i < s.len(),
    ensures
        text_map_of(s).dom().contains(s[i].0@),
        text_map_of(s)[s[i].0@] == s[i].1,
    decreases s.len(),
{
    if i < s.len() - 1 {
        assert(s.drop_last()[i] == s[i]);
        lemma_text_map_of_index(s.drop_last(), i);
    }
}

pub proof fn lemma_text_map_of_finite_len<V>(s: Seq<(String, V)>)
    requires
        distinct_text_keys(s),
    ensures
        text_map_of(s).dom().finite(),
        text_map_of(s).dom().len() == s.len(),
    decreases s.len(),
{
    if s.len() > 0 {
        lemma_text_map_of_finite_len(s.drop_last());
        lemma_text_map_of_dom(s.drop_last(), s.last().0@);
        if text_map_of(s.drop_last()).dom().contains(s.last().0@) {
            let i = choose|i: int|
                0 <= i < s.drop_last().len() && s.drop_last()[i].0@ == s.last().0@;
            assert(s[i].0@ == s[s.len() - 1].0@);
        }
    }
}

pub proof fn lemma_text_map_of_remove<V>(s: Seq<(String, V)>, i: int)
    requires
        distinct_text_keys(s),
        0 <= i < s.len(),
    ensures
        distinct_text_keys(s.remove(i)),
        text_map_of(s.remove(i)) =~= text_map_of(s).remove(s[i].0@),
{
    let t = s.remove(i);
    assert forall|a: int, b: int| 0 <= a < b < t.len() implies t[a].0@ != t[b].0@ by {
        let a2 = if a < i { a } else { a + 1 };
        let b2 = if b < i { b } else { b + 1 };
        assert(t[a] == s[a2] && t[b] == s[b2]);
    }
    assert forall|k: Seq<char>| #[trigger] text_map_of(t).dom().contains(k) <==> text_map_of(s).remove(
        s[i].0@,
    ).dom().contains(k) by {
        lemma_text_map_of_dom(t, k);
        lemma_text_map_of_dom(s, k);
        if text_map_of(t).dom().contains(k) {
            let a = choose|a: int| 0 <= a < t.len() && t[a].0@ == k;
            let a2 = if a < i { a } else { a + 1 };
            assert(t[a] == s[a2]);
        }
        if text_map_of(s).remove(s[i].0@).dom().contains(k) {
            let a = choose|a: int| 0 <= a < s.len() && s[a].0@ == k;
            assert(a != i);
            let a2 = if a < i { a } else { a - 1 };
            assert(t[a2] == s[a]);
        }
    }
    assert forall|k: Seq<char>| #[trigger] text_map_of(t).dom().contains(k) implies text_map_of(t)[k]
        == text_map_of(s)[k] by {
        lemma_text_map_of_dom(t, k);
        let a = choose|a: int| 0 <= a < t.len() && t[a].0@ == k;
        let a2 = if a < i { a } else { a + 1 };
        assert(t[a] == s[a2]);
        lemma_text_map_of_index(t, a);
        lemma_text_map_of_index(s, a2);
    }
}

pub proof fn lemma_text_map_of_update<V>(s: Seq<(String, V)>, i: int, e: (String, V))
    requires
        distinct_text_keys(s),
        0 <= i < s.len(),
        e.0@ == s[i].0@,
    ensures
        distinct_text_keys(s.update(i, e)),
        text_map_of(s.update(i, e)) =~= text_map_of(s).insert(e.0@, e.1),
{
    let t = s.update(i, e);
    assert forall|a: int, b: int| 0 <= a < b < t.len() implies t[a].0@ != t[b].0@ by {}
    assert forall|k: Seq<char>| #[trigger] text_map_of(t).dom().contains(k) <==> text_map_of(s).insert(
        e.0@,
        e.1,
    ).dom().contains(k) by {
        lemma_text_map_of_dom(t, k);
        lemma_text_map_of_dom(s, k);
        if text_map_of(s).dom().contains(k) {
            let a = choose|a: int| 0 <= a < s.len() && s[a].0@ == k;
            assert(t[a].0@ == k);
        }
        if text_map_of(t).dom().contains(k) {
            let a = choose|a: int| 0 <= a < t.len() && t[a].0@ == k;
            assert(s[a].0@ == k);
        }
        if k == e.0@ {
            assert(t[i].0@ == k);
        }
    }
    assert forall|k: Seq<char>| #[trigger] text_map_of(t).dom().contains(k) implies text_map_of(t)[k]
        == text_map_of(s).insert(e.0@, e.1)[k] by {
        lemma_text_map_of_dom(t, k);
        let a = choose|a: int| 0 <= a < t.len() && t[a].0@ == k;
        lemma_text_map_of_index(t, a);
        if a != i {
            lemma_text_map_of_index(s, a);
        }
    }
}

pub proof fn lemma_text_map_of_push<V>(s: Seq<(String, V)>, e: (String, V))
    requires
        distinct_text_keys(s),
        !text_map_of(s).dom().contains(e.0@),
    ensures
        distinct_text_keys(s.push(e)),
        text_map_of(s.push(e)) == text_map_of(s).insert(e.0@, e.1),
{
    let t = s.push(e);
    assert(t.drop_last() =~= s);
    assert forall|a: int, b: int| 0 <= a < b < t.len() implies t[a].0@ != t[b].0@ by {
        if b == s.len() {
            lemma_text_map_of_dom(s, e.0@);
            assert(t[a] == s[a]);
        }
    }
}

/// A table from text keys to values, kept as a list of distinct keys.
#[derive(Debug)]
pub struct TextTable<V> {
    pub entries: Vec<(String, V)>,
}

impl<V> View for TextTable<V> {
    type V = Map<Seq<char>, V>;

    open spec fn view(&self) -> Map<Seq<char>, V> {
        text_map_of(self.entries@)
    }
}

impl<V> TextTable<V> {
    pub open spec fn wf(&self) -> bool {
        distinct_text_keys(self.entries@)
    }

    pub fn new() -> (r: Self)
        ensures
            r.wf(),
            r@ == Map::<Seq<char>, V>::empty(),
    {
        TextTable { entries: Vec::new() }
    }

    pub fn len(&self) -> (r: usize)
        requires
            self.wf(),
        ensures
            r == self@.len(),
            self@.dom().finite(),
    {
        proof {
            lemma_text_map_of_finite_len(self.entries@);
        }
        self.entries.len()
    }

    /// The index of `key`, if present.
    pub fn position(&self, key: &str) -> (r: Option<usize>)
        requires
            self.wf(),
        ensures
            r is None <==> !self@.dom().contains(key@),
            r matches Some(i) ==> i < self.entries.len() && self.entries@[i as int].0@ == key@
                && self@[key@] == self.entries@[i as int].1,
    {
        let mut i: usize = 0;
        while i < self.entries.len()
            invariant
                i <= self.entries.len(),
                distinct_text_keys(self.entries@),
                forall|j: int| 0 <= j < i ==> self.entries@[j].0@ != key@,
            decreases self.entries.len() - i,
        {
            if crate::agent::str_eq(self.entries[i].0.as_str(), key) {
                proof {
                    lemma_text_map_of_index(self.entries@, i as int);
                }
                return Some(i);
            }
            i = i + 1;
        }
        proof {
            lemma_text_map_of_dom(self.entries@, key@);
        }
        None
    }

    pub fn contains_key(&self, key: &str) -> (r: bool)
        requires
            self.wf(),
        ensures
            r == self@.dom().contains(key@),
    {
        self.position(key).is_some()
    }

    /// The value of `key`, if present.
    pub fn get(&self, key: &str) -> (r: Option<&V>)
        requires
            self.wf(),
        ensures
            r is Some <==> self@.dom().contains(key@),
            r matches Some(v) ==> *v == self@[key@],
    {
        match self.position(key) {
            Some(i) => Some(&self.entries[i].1),
            None => None,
        }
    }

    /// Removes `key`, handing back its value.
    pub fn remove(&mut self, key: &str) -> (r: Option<V>)
        requires
            old(self).wf(),
        ensures
            final(self).wf(),
            final(self)@ == old(self)@.remove(key@),
            r is Some <==> old(self)@.dom().contains(key@),
            r matches Some(v) ==> v == old(self)@[key@],
    {
        match self.position(key) {
            Some(i) => {
                proof {
                    lemma_text_map_of_remove(self.entries@, i as int);
                }
                let (_, v) = self.entries.remove(i);
                Some(v)
            },
            None => {
                assert(self@.remove(key@) =~= self@);
                None
            },
        }
    }

    /// Inserts or replaces the value of `key`; hands back whether it was present.
    pub fn insert(&mut self, key: String, value: V) -> (r: bool)
        requires
            old(self).wf(),
        ensures
            final(self).wf(),
            final(self)@ == old(self)@.insert(key@, value),
            r == old(self)@.dom().contains(key@),
    {
        match self.position(key.as_str()) {
            Some(i) => {
                proof {
                    lemma_text_map_of_update(self.entries@, i as int, (key, value));
                }
                self.entries.set(i, (key, value));
                true
            },
            None => {
                proof {
                    lemma_text_map_of_push(self.entries@, (key, value));
                }
                self.entries.push((key, value));
                false
            },
        }
    }

    /// Keeps only the entries whose key is in `keep`.
    pub fn retain_keys(&mut self, keep: &Vec<String>)
        requires
            old(self).wf(),
        ensures
            final(self).wf(),
            final(self)@ == old(self)@.restrict(
                old(self)@.dom().filter(|k: Seq<char>| listed(keep@, k)),
            ),
    {
        let ghost before = self@;
        let mut kept: Vec<(String, V)> = Vec::new();
        let mut rest: Vec<(String, V)> = Vec::new();
        std::mem::swap(&mut rest, &mut self.entries);
        let ghost all = rest@;
        let n: usize = rest.len();
        let mut i: usize = 0;
        while rest.len() > 0
            invariant
                distinct_text_keys(all),
                before == text_map_of(all),
                i + rest.len() == all.len(),
                all.len() == n,
                rest@ == all.skip(i as int),
                distinct_text_keys(kept@),
                text_map_of(kept@) == text_map_of(all.take(i as int)).restrict(
                    text_map_of(all.take(i as int)).dom().filter(|k: Seq<char>| listed(keep@, k)),
                ),
                forall|k: Seq<char>| #[trigger] text_map_of(kept@).dom().contains(k) ==> text_map_of(all.take(i as int)).dom().contains(k),
            decreases rest.len(),
        {
            let e = rest.remove(0);
            let ghost prefix = all.take(i as int);
            let ghost next = all.take(i + 1);
            assert(next.drop_last() =~= prefix);
            assert(next.last() == e);
            proof {
                assert(rest@ =~= all.skip(i + 1));
                lemma_text_map_of_dom(prefix, e.0@);
                if text_map_of(prefix).dom().contains(e.0@) {
                    let j = choose|j: int| 0 <= j < prefix.len() && prefix[j].0@ == e.0@;
                    assert(all[j].0@ == all[i as int].0@);
                }
            }
            if text_listed(keep, e.0.as_str()) {
                proof {
                    lemma_text_map_of_push(kept@, e);
                }
                kept.push(e);
            }
            proof {
                assert(text_map_of(kept@) =~= text_map_of(next).restrict(
                    text_map_of(next).dom().filter(|k: Seq<char>| listed(keep@, k)),
                ));
            }
            i = i + 1;
        }
        assert(all.take(i as int) =~= all);
        self.entries = kept;
        assert(self@ =~= before.restrict(before.dom().filter(|k: Seq<char>| listed(keep@, k))));
    }
}

/// A table from ids to values, held in a `HashMap`.
pub struct IdTable<V> {
    pub map: HashMap<i64, V>,
}

impl<V> View for IdTable<V> {
    type V = Map<i64, V>;

    open spec fn view(&self) -> Map<i64, V> {
        self.map@
    }
}

impl<V> IdTable<V> {
    pub open spec fn wf(&self) -> bool {
        self@.dom().finite()
    }

    pub fn new() -> (r: Self)
        ensures
            r.wf(),
            r@ == Map::<i64, V>::empty(),
    {
        IdTable { map: HashMap::new() }
    }

    pub fn len(&self) -> (r: usize)
        requires
            self.wf(),
        ensures
            r == self@.len(),
            self@.dom().finite(),
    {
        broadcast use vstd::std_specs::hash::group_hash_axioms;

        self.map.len()
    }

    pub fn contains_key(&self, key: i64) -> (r: bool)
        requires
            self.wf(),
        ensures
            r == self@.dom().contains(key),
    {
        broadcast use vstd::std_specs::hash::group_hash_axioms;

        self.map.contains_key(&key)
    }

    /// The value of `key`, if present.
    pub fn get(&self, key: i64) -> (r: Option<&V>)
        requires
            self.wf(),
        ensures
            r is Some <==> self@.dom().contains(key),
            r matches Some(v) ==> *v == self@[key],
    {
        broadcast use vstd::std_specs::hash::group_hash_axioms;

        self.map.get(&key)
    }

    /// Removes `key`, handing back its value.
    pub fn remove(&mut self, key: i64) -> (r: Option<V>)
        requires
            old(self).wf(),
        ensures
            final(self).wf(),
            final(self)@ == old(self)@.remove(key),
            r is Some <==> old(self)@.dom().contains(key),
            r matches Some(v) ==> v == old(self)@[key],
    {
        broadcast use vstd::std_specs::hash::group_hash_axioms;

        self.map.remove(&key)
    }

    /// Inserts or replaces the value of `key`; hands back whether it was present.
    pub fn insert(&mut self, key: i64, value: V) -> (r: bool)
        requires
            old(self).wf(),
        ensures
            final(self).wf(),
            final(self)@ == old(self)@.insert(key, value),
            r == old(self)@.dom().contains(key),
    {
        broadcast use vstd::std_specs::hash::group_hash_axioms;

        self.map.insert(key, value).is_some()
    }
}

/// Whether `k` is one of `keys`.
pub open spec fn listed(keys: Seq<String>, k: Seq<char>) -> bool {
    exists|i: int| 0 <= i < keys.len() && keys[i]@ == k
}

pub fn text_listed(keys: &Vec<String>, key: &str) -> (r: bool)
    ensures
        r == listed(keys@, key@),
{
    let mut i: usize = 0;
    while i < keys.len()
        invariant
            i <= keys.len(),
            forall|j: int| 0 <= j < i ==> keys@[j]@ != key@,
        decreases keys.len() - i,
    {
        if crate::agent::str_eq(keys[i].as_str(), key) {
            return true;
        }
        i = i + 1;
    }
    false
}

} // verus!
