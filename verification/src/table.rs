//! A table keyed by agent timing keys, held as a list of distinct keys, and the
//! bounded eviction of its least recently used entries.
use vstd::prelude::*;
use crate::agent::{AgentTimingKey, TimingKeyView};
use crate::text::{chars_of, append_str};

verus! {

/// The map a list of entries stands for; a later entry wins over an earlier one.
pub open spec fn map_of<V>(s: Seq<(AgentTimingKey, V)>) -> Map<TimingKeyView, V>
    decreases s.len(),
{
    if s.len() == 0 {
        Map::empty()
    } else {
        map_of(s.drop_last()).insert(s.last().0@, s.last().1)
    }
}

/// No key occurs twice.
pub open spec fn distinct_keys<V>(s: Seq<(AgentTimingKey, V)>) -> bool {
    forall|i: int, j: int| 0 <= i < j < s.len() ==> s[i].0@ != s[j].0@
}

pub proof fn lemma_map_of_dom<V>(s: Seq<(AgentTimingKey, V)>, k: TimingKeyView)
    ensures
        map_of(s).dom().contains(k) <==> exists|i: int| 0 <= i < s.len() && s[i].0@ == k,
    decreases s.len(),
{
    if s.len() > 0 {
        lemma_map_of_dom(s.drop_last(), k);
        if map_of(s).dom().contains(k) && s.last().0@ != k {
            let i = choose|i: int| 0 <= i < s.drop_last().len() && s.drop_last()[i].0@ == k;
            assert(s[i].0@ == k);
        }
        if exists|i: int| 0 <= i < s.len() && s[i].0@ == k {
            let i = choose|i: int| 0 <= i < s.len() && s[i].0@ == k;
            if i < s.len() - 1 {
                assert(s.drop_last()[i].0@ == k);
            }
        }
    }
}

pub proof fn lemma_map_of_index<V>(s: Seq<(AgentTimingKey, V)>, i: int)
    requires
        distinct_keys(s),
        0 <= i < s.len(),
    ensures
        map_of(s).dom().contains(s[i].0@),
        map_of(s)[s[i].0@] == s[i].1,
    decreases s.len(),
{
    if i < s.len() - 1 {
        assert(s.drop_last()[i] == s[i]);
        lemma_map_of_index(s.drop_last(), i);
    }
}

pub proof fn lemma_map_of_finite_len<V>(s: Seq<(AgentTimingKey, V)>)
    requires
        distinct_keys(s),
    ensures
        map_of(s).dom().finite(),
        map_of(s).dom().len() == s.len(),
    decreases s.len(),
{
    if s.len() > 0 {
        lemma_map_of_finite_len(s.drop_last());
        lemma_map_of_dom(s.drop_last(), s.last().0@);
        if map_of(s.drop_last()).dom().contains(s.last().0@) {
            let i = choose|i: int|
                0 <= i < s.drop_last().len() && s.drop_last()[i].0@ == s.last().0@;
            assert(s[i].0@ == s[s.len() - 1].0@);
        }
    }
}

pub proof fn lemma_map_of_remove<V>(s: Seq<(AgentTimingKey, V)>, i: int)
    requires
        distinct_keys(s),
        0 <= i < s.len(),
    ensures
        distinct_keys(s.remove(i)),
        map_of(s.remove(i)) =~= map_of(s).remove(s[i].0@),
{
    let t = s.remove(i);
    assert forall|a: int, b: int| 0 <= a < b < t.len() implies t[a].0@ != t[b].0@ by {
        let a2 = if a < i { a } else { a + 1 };
        let b2 = if b < i { b } else { b + 1 };
        assert(t[a] == s[a2] && t[b] == s[b2]);
    }
    assert forall|k: TimingKeyView| #[trigger] map_of(t).dom().contains(k) <==> map_of(s).remove(
        s[i].0@,
    ).dom().contains(k) by {
        lemma_map_of_dom(t, k);
        lemma_map_of_dom(s, k);
        if map_of(t).dom().contains(k) {
            let a = choose|a: int| 0 <= a < t.len() && t[a].0@ == k;
            let a2 = if a < i { a } else { a + 1 };
            assert(t[a] == s[a2]);
        }
        if map_of(s).remove(s[i].0@).dom().contains(k) {
            let a = choose|a: int| 0 <= a < s.len() && s[a].0@ == k;
            assert(a != i);
            let a2 = if a < i { a } else { a - 1 };
            assert(t[a2] == s[a]);
        }
    }
    assert forall|k: TimingKeyView| #[trigger] map_of(t).dom().contains(k) implies map_of(t)[k]
        == map_of(s)[k] by {
        lemma_map_of_dom(t, k);
        let a = choose|a: int| 0 <= a < t.len() && t[a].0@ == k;
        let a2 = if a < i { a } else { a + 1 };
        assert(t[a] == s[a2]);
        lemma_map_of_index(t, a);
        lemma_map_of_index(s, a2);
    }
}

pub proof fn lemma_map_of_update<V>(s: Seq<(AgentTimingKey, V)>, i: int, e: (AgentTimingKey, V))
    requires
        distinct_keys(s),
        0 <= i < s.len(),
        e.0@ == s[i].0@,
    ensures
        distinct_keys(s.update(i, e)),
        map_of(s.update(i, e)) =~= map_of(s).insert(e.0@, e.1),
{
    let t = s.update(i, e);
    assert forall|a: int, b: int| 0 <= a < b < t.len() implies t[a].0@ != t[b].0@ by {}
    assert forall|k: TimingKeyView| #[trigger] map_of(t).dom().contains(k) <==> map_of(s).insert(
        e.0@,
        e.1,
    ).dom().contains(k) by {
        lemma_map_of_dom(t, k);
        lemma_map_of_dom(s, k);
        if map_of(s).dom().contains(k) {
            let a = choose|a: int| 0 <= a < s.len() && s[a].0@ == k;
            assert(t[a].0@ == k);
        }
        if map_of(t).dom().contains(k) {
            let a = choose|a: int| 0 <= a < t.len() && t[a].0@ == k;
            assert(s[a].0@ == k);
        }
        if k == e.0@ {
            assert(t[i].0@ == k);
        }
    }
    assert forall|k: TimingKeyView| #[trigger] map_of(t).dom().contains(k) implies map_of(t)[k]
        == map_of(s).insert(e.0@, e.1)[k] by {
        lemma_map_of_dom(t, k);
        let a = choose|a: int| 0 <= a < t.len() && t[a].0@ == k;
        lemma_map_of_index(t, a);
        if a != i {
            lemma_map_of_index(s, a);
        }
    }
}

pub proof fn lemma_map_of_push<V>(s: Seq<(AgentTimingKey, V)>, e: (AgentTimingKey, V))
    requires
        distinct_keys(s),
        !map_of(s).dom().contains(e.0@),
    ensures
        distinct_keys(s.push(e)),
        map_of(s.push(e)) == map_of(s).insert(e.0@, e.1),
{
    let t = s.push(e);
    assert(t.drop_last() =~= s);
    assert forall|a: int, b: int| 0 <= a < b < t.len() implies t[a].0@ != t[b].0@ by {
        if b == s.len() {
            lemma_map_of_dom(s, e.0@);
            assert(t[a] == s[a]);
        }
    }
}

/// A table from timing keys to values, kept as a list of distinct keys: a
/// timing key holds text, and vstd models `HashMap` keys of integer types only.
pub struct KeyedTable<V> {
    pub entries: Vec<(AgentTimingKey, V)>,
}

impl<V> View for KeyedTable<V> {
    type V = Map<TimingKeyView, V>;

    open spec fn view(&self) -> Map<TimingKeyView, V> {
        map_of(self.entries@)
    }
}

impl<V> KeyedTable<V> {
    pub open spec fn wf(&self) -> bool {
        distinct_keys(self.entries@)
    }

    pub fn new() -> (r: Self)
        ensures
            r.wf(),
            r@ == Map::<TimingKeyView, V>::empty(),
    {
        KeyedTable { entries: Vec::new() }
    }

    pub fn len(&self) -> (r: usize)
        requires
            self.wf(),
        ensures
            r == self@.len(),
            self@.dom().finite(),
    {
        proof {
            lemma_map_of_finite_len(self.entries@);
        }
        self.entries.len()
    }

    /// The index of `key`, if present.
    pub fn position(&self, key: &AgentTimingKey) -> (r: Option<usize>)
        requires
            self.wf(),
        ensures
            r is None <==> !self@.dom().contains(key@),
            r matches Some(i) ==> i < self.entries.len() && self.entries@[i as int].0@ == key@
                && self@[key@] == self.entries@[i as int].1,
    {
        let mut i: usize = 0;
        while i < self.entries.len()
            invariant
                i <= self.entries.len(),
                distinct_keys(self.entries@),
                forall|j: int| 0 <= j < i ==> self.entries@[j].0@ != key@,
            decreases self.entries.len() - i,
        {
            if self.entries[i].0.same_as(key) {
                proof {
                    lemma_map_of_index(self.entries@, i as int);
                }
                return Some(i);
            }
            i = i + 1;
        }
        proof {
            lemma_map_of_dom(self.entries@, key@);
        }
        None
    }

    pub fn contains_key(&self, key: &AgentTimingKey) -> (r: bool)
        requires
            self.wf(),
        ensures
            r == self@.dom().contains(key@),
    {
        self.position(key).is_some()
    }

    /// Removes `key`, handing back its value.
    pub fn remove(&mut self, key: &AgentTimingKey) -> (r: Option<V>)
        requires
            old(self).wf(),
        ensures
            final(self).wf(),
            final(self)@ == old(self)@.remove(key@),
            r is Some <==> old(self)@.dom().contains(key@),
            r matches Some(v) ==> v == old(self)@[key@],
    {
        match self.position(key) {
            Some(i) => {
                proof {
                    lemma_map_of_remove(self.entries@, i as int);
                }
                let (_, v) = self.entries.remove(i);
                Some(v)
            },
            None => {
                assert(self@.remove(key@) =~= self@);
                None
            },
        }
    }

    /// Inserts or replaces the value of `key`.
    pub fn insert(&mut self, key: AgentTimingKey, value: V)
        requires
            old(self).wf(),
        ensures
            final(self).wf(),
            final(self)@ == old(self)@.insert(key@, value),
    {
        match self.position(&key) {
            Some(i) => {
                proof {
                    lemma_map_of_update(self.entries@, i as int, (key, value));
                }
                self.entries.set(i, (key, value));
            },
            None => {
                proof {
                    lemma_map_of_push(self.entries@, (key, value));
                }
                self.entries.push((key, value));
            },
        }
    }

    /// Keeps only the entries whose key is listed in `keep`.
    pub fn retain_listed(&mut self, keep: &Vec<AgentTimingKey>)
        requires
            old(self).wf(),
        ensures
            final(self).wf(),
            final(self)@ == old(self)@.restrict(
                old(self)@.dom().filter(|k: TimingKeyView| key_in(keep@, k)),
            ),
    {
        let ghost before = self@;
        let mut kept: Vec<(AgentTimingKey, V)> = Vec::new();
        let mut rest: Vec<(AgentTimingKey, V)> = Vec::new();
        std::mem::swap(&mut rest, &mut self.entries);
        let ghost all = rest@;
        let n: usize = rest.len();
        let mut i: usize = 0;
        while rest.len() > 0
            invariant
                distinct_keys(all),
                before == map_of(all),
                i + rest.len() == all.len(),
                all.len() == n,
                rest@ == all.skip(i as int),
                distinct_keys(kept@),
                map_of(kept@) == map_of(all.take(i as int)).restrict(
                    map_of(all.take(i as int)).dom().filter(|k: TimingKeyView| key_in(keep@, k)),
                ),
                forall|k: TimingKeyView| #[trigger] map_of(kept@).dom().contains(k) ==> map_of(all.take(i as int)).dom().contains(k),
            decreases rest.len(),
        {
            let e = rest.remove(0);
            let ghost prefix = all.take(i as int);
            let ghost next = all.take(i + 1);
            assert(next.drop_last() =~= prefix);
            assert(next.last() == e);
            proof {
                assert(rest@ =~= all.skip(i + 1));
                lemma_map_of_dom(prefix, e.0@);
                if map_of(prefix).dom().contains(e.0@) {
                    let j = choose|j: int| 0 <= j < prefix.len() && prefix[j].0@ == e.0@;
                    assert(all[j].0@ == all[i as int].0@);
                }
            }
            if key_listed(keep, &e.0) {
                proof {
                    lemma_map_of_push(kept@, e);
                }
                kept.push(e);
            }
            proof {
                assert(map_of(kept@) =~= map_of(next).restrict(
                    map_of(next).dom().filter(|k: TimingKeyView| key_in(keep@, k)),
                ));
            }
            i = i + 1;
        }
        assert(all.take(i as int) =~= all);
        self.entries = kept;
        assert(self@ =~= before.restrict(before.dom().filter(|k: TimingKeyView| key_in(keep@, k))));
    }

    pub fn clear(&mut self)
        ensures
            final(self).wf(),
            final(self)@ == Map::<TimingKeyView, V>::empty(),
    {
        self.entries.clear();
    }
}

/// Values that record when they were last used.
pub trait Stamped {
    spec fn stamp(&self) -> u64;

    fn stamp_exec(&self) -> (r: u64)
        ensures
            r == self.stamp(),
    ;
}

/// A lower-case hexadecimal digit.
pub open spec fn json_hex_digit(n: int) -> char {
    seq!['0', '1', '2', '3', '4', '5', '6', '7', '8', '9', 'a', 'b', 'c', 'd', 'e', 'f'][n]
}

/// How serde_json writes a character inside a string: a quote and a
/// backslash behind a backslash; backspace, tab, line feed, form feed and
/// carriage return as short escapes; other characters below U+0020 as
/// `\u00XX` in lower-case hexadecimal; every other character as it is.
pub open spec fn json_char(c: char) -> Seq<char> {
    let code = c as int;
    if c == '"' {
        seq!['\\', '"']
    } else if c == '\\' {
        seq!['\\', '\\']
    } else if c == '\u{8}' {
        seq!['\\', 'b']
    } else if c == '\t' {
        seq!['\\', 't']
    } else if c == '\n' {
        seq!['\\', 'n']
    } else if c == '\u{c}' {
        seq!['\\', 'f']
    } else if c == '\r' {
        seq!['\\', 'r']
    } else if code < 32 {
        seq!['\\', 'u', '0', '0'].push(json_hex_digit(code / 16)).push(json_hex_digit(code % 16))
    } else {
        seq![c]
    }
}

/// The characters of a string, each as serde_json writes it.
pub open spec fn json_escaped(s: Seq<char>) -> Seq<char>
    decreases s.len(),
{
    if s.len() == 0 {
        Seq::empty()
    } else {
        json_escaped(s.drop_last()) + json_char(s.last())
    }
}

/// The JSON text of a string literal, as `serde_json::to_string` writes it:
/// the escaped characters between double quotes.
pub open spec fn json_string(s: Seq<char>) -> Seq<char> {
    seq!['"'] + json_escaped(s) + seq!['"']
}

/// Calls `serde_json::to_string` on a string (`format_escaped_str` and its
/// escape table in serde_json's `ser.rs`); the result is `json_string`.
#[verifier::external_body]
fn json_string_literal(s: &str) -> (r: String)
    ensures
        r@ == json_string(s@),
{
    serde_json::to_string(s).unwrap_or_default()
}

/// The serialized form of a key, which orders keys of equal age.
pub open spec fn stable_id(k: TimingKeyView) -> Seq<char> {
    match k {
        TimingKeyView::Session(i) => "{\"scope\":\"session\",\"identity\":{\"source\":"@ + json_string(
            i.source,
        ) + ",\"agent\":"@ + json_string(i.agent) + ",\"kind\":"@ + json_string(i.kind)
            + ",\"value\":"@ + json_string(i.value) + "}}"@,
        TimingKeyView::Terminal(t) => "{\"scope\":\"terminal\",\"identity\":"@ + json_string(t)
            + "}"@,
        TimingKeyView::Pane(p) => "{\"scope\":\"pane\",\"identity\":"@ + json_string(p) + "}"@,
    }
}

/// The key's serialized form.
pub fn stable_id_exec(key: &AgentTimingKey) -> (r: Vec<char>)
    ensures
        r@ == stable_id(key@),
{
    let mut s = String::new();
    match key {
        AgentTimingKey::Session(i) => {
            append_str(&mut s, "{\"scope\":\"session\",\"identity\":{\"source\":");
            append_str(&mut s, json_string_literal(i.source.as_str()).as_str());
            append_str(&mut s, ",\"agent\":");
            append_str(&mut s, json_string_literal(i.agent.as_str()).as_str());
            append_str(&mut s, ",\"kind\":");
            append_str(&mut s, json_string_literal(i.kind.as_str()).as_str());
            append_str(&mut s, ",\"value\":");
            append_str(&mut s, json_string_literal(i.value.as_str()).as_str());
            append_str(&mut s, "}}");
        },
        AgentTimingKey::Terminal(t) => {
            append_str(&mut s, "{\"scope\":\"terminal\",\"identity\":");
            append_str(&mut s, json_string_literal(t.as_str()).as_str());
            append_str(&mut s, "}");
        },
        AgentTimingKey::Pane(p) => {
            append_str(&mut s, "{\"scope\":\"pane\",\"identity\":");
            append_str(&mut s, json_string_literal(p.as_str()).as_str());
            append_str(&mut s, "}");
        },
    }
    assert(s@ =~= stable_id(key@));
    chars_of(s.as_str())
}

/// Lexicographic order of character sequences by code point (the order of `str`).
pub open spec fn seq_lt(a: Seq<char>, b: Seq<char>) -> bool
    decreases a.len(),
{
    if b.len() == 0 {
        false
    } else if a.len() == 0 {
        true
    } else if (a[0] as u32) < (b[0] as u32) {
        true
    } else if a[0] == b[0] {
        seq_lt(a.drop_first(), b.drop_first())
    } else {
        false
    }
}

pub proof fn lemma_seq_lt_transitive(a: Seq<char>, b: Seq<char>, c: Seq<char>)
    requires
        seq_lt(a, b),
        seq_lt(b, c),
    ensures
        seq_lt(a, c),
    decreases a.len(),
{
    if a.len() > 0 && b.len() > 0 && c.len() > 0 && a[0] == b[0] && b[0] == c[0] {
        lemma_seq_lt_transitive(a.drop_first(), b.drop_first(), c.drop_first());
    }
}

pub proof fn lemma_seq_lt_irreflexive(a: Seq<char>)
    ensures
        !seq_lt(a, a),
    decreases a.len(),
{
    if a.len() > 0 {
        lemma_seq_lt_irreflexive(a.drop_first());
    }
}

proof fn lemma_seq_lt_skip(a: Seq<char>, b: Seq<char>, i: int)
    requires
        0 <= i <= a.len(),
        i <= b.len(),
        forall|k: int| 0 <= k < i ==> a[k] == b[k],
    ensures
        seq_lt(a, b) == seq_lt(a.skip(i), b.skip(i)),
    decreases i,
{
    if i > 0 {
        assert(a[0] == b[0]);
        assert forall|k: int| 0 <= k < i - 1 implies a.drop_first()[k] == b.drop_first()[k] by {
            assert(a[k + 1] == b[k + 1]);
        }
        lemma_seq_lt_skip(a.drop_first(), b.drop_first(), i - 1);
        assert(a.drop_first().skip(i - 1) =~= a.skip(i));
        assert(b.drop_first().skip(i - 1) =~= b.skip(i));
    } else {
        assert(a.skip(0) =~= a);
        assert(b.skip(0) =~= b);
    }
}

pub fn chars_lt(a: &Vec<char>, b: &Vec<char>) -> (r: bool)
    ensures
        r == seq_lt(a@, b@),
{
    let mut i: usize = 0;
    while i < a.len() && i < b.len() && a[i] == b[i]
        invariant
            i <= a.len(),
            i <= b.len(),
            forall|k: int| 0 <= k < i ==> a@[k] == b@[k],
        decreases a.len() - i,
    {
        i = i + 1;
    }
    proof {
        lemma_seq_lt_skip(a@, b@, i as int);
    }
    let ghost sa = a@.skip(i as int);
    let ghost sb = b@.skip(i as int);
    if i == b.len() {
        assert(sb.len() == 0);
        false
    } else if i == a.len() {
        true
    } else {
        assert(sa[0] == a@[i as int] && sb[0] == b@[i as int]);
        (a[i] as u32) < (b[i] as u32)
    }
}

/// The eviction order: older first, then by serialized key.
pub open spec fn rank_lt(s1: u64, k1: TimingKeyView, s2: u64, k2: TimingKeyView) -> bool {
    s1 < s2 || (s1 == s2 && seq_lt(stable_id(k1), stable_id(k2)))
}

/// An entry is no later than another in the eviction order.
pub open spec fn rank_le(s1: u64, k1: TimingKeyView, s2: u64, k2: TimingKeyView) -> bool {
    !rank_lt(s2, k2, s1, k1)
}

proof fn lemma_rank_lt_transitive(
    s1: u64,
    k1: TimingKeyView,
    s2: u64,
    k2: TimingKeyView,
    s3: u64,
    k3: TimingKeyView,
)
    requires
        rank_lt(s1, k1, s2, k2),
        rank_lt(s2, k2, s3, k3),
    ensures
        rank_lt(s1, k1, s3, k3),
{
    if s1 == s2 && s2 == s3 {
        lemma_seq_lt_transitive(stable_id(k1), stable_id(k2), stable_id(k3));
    }
}

/// Whether a key is among the keys that eviction spares.
pub open spec fn key_in(keys: Seq<AgentTimingKey>, k: TimingKeyView) -> bool {
    exists|i: int| 0 <= i < keys.len() && keys[i]@ == k
}

pub fn key_listed(keys: &Vec<AgentTimingKey>, key: &AgentTimingKey) -> (r: bool)
    ensures
        r == key_in(keys@, key@),
{
    let mut i: usize = 0;
    while i < keys.len()
        invariant
            i <= keys.len(),
            forall|j: int| 0 <= j < i ==> keys@[j]@ != key@,
        decreases keys.len() - i,
    {
        if keys[i].same_as(key) {
            return true;
        }
        i = i + 1;
    }
    false
}

/// What eviction guarantees of the kept table `after` and the original `before`:
/// entries leave in eviction order within each class (spared and not spared).
pub open spec fn evicted_in_order<V: Stamped>(
    before: Map<TimingKeyView, V>,
    after: Map<TimingKeyView, V>,
    spared: Seq<AgentTimingKey>,
) -> bool {
    forall|r: TimingKeyView, k: TimingKeyView|
        #![trigger before.dom().contains(r), after.dom().contains(k)]
        before.dom().contains(r) && !after.dom().contains(r) && after.dom().contains(k)
            && key_in(spared, r) == key_in(spared, k) ==> rank_le(
            before[r].stamp(),
            r,
            before[k].stamp(),
            k,
        )
}

/// `after` keeps a subset of the entries of `before`, unchanged.
pub open spec fn kept_from<V>(before: Map<TimingKeyView, V>, after: Map<TimingKeyView, V>) -> bool {
    &&& after.dom().subset_of(before.dom())
    &&& forall|k: TimingKeyView| #[trigger] after.dom().contains(k) ==> after[k] == before[k]
}

impl<V: Stamped> KeyedTable<V> {
    /// The position of the entry that eviction takes next: the earliest in
    /// eviction order among those not spared, or among all entries when
    /// `any` is set.
    fn eviction_candidate(&self, ids: &Vec<Vec<char>>, spared: &Vec<AgentTimingKey>, any: bool) -> (r:
        Option<usize>)
        requires
            self.wf(),
            ids.len() == self.entries.len(),
            forall|i: int| 0 <= i < ids.len() ==> #[trigger] ids@[i]@ == stable_id(
                self.entries@[i].0@,
            ),
        ensures
            any && self.entries.len() > 0 ==> r is Some,
            r is None ==> forall|i: int|
                0 <= i < self.entries.len() ==> (any || key_in(spared@, #[trigger] self.entries@[i].0@)),
            r matches Some(m) ==> {
                &&& m < self.entries.len()
                &&& (any || !key_in(spared@, self.entries@[m as int].0@))
                &&& forall|i: int|
                    0 <= i < self.entries.len() && (any || !key_in(
                        spared@,
                        #[trigger] self.entries@[i].0@,
                    )) ==> rank_le(
                    self.entries@[m as int].1.stamp(),
                    self.entries@[m as int].0@,
                    self.entries@[i].1.stamp(),
                    self.entries@[i].0@,
                )
            },
    {
        let mut best: Option<usize> = None;
        let mut i: usize = 0;
        while i < self.entries.len()
            invariant
                i <= self.entries.len(),
                ids.len() == self.entries.len(),
                any && i > 0 ==> best is Some,
                forall|j: int| 0 <= j < ids.len() ==> #[trigger] ids@[j]@ == stable_id(
                    self.entries@[j].0@,
                ),
                best is None ==> forall|j: int|
                    0 <= j < i ==> (any || key_in(spared@, #[trigger] self.entries@[j].0@)),
                best matches Some(m) ==> {
                    &&& m < i
                    &&& (any || !key_in(spared@, self.entries@[m as int].0@))
                    &&& forall|j: int|
                        0 <= j < i && (any || !key_in(spared@, #[trigger] self.entries@[j].0@))
                            ==> rank_le(
                            self.entries@[m as int].1.stamp(),
                            self.entries@[m as int].0@,
                            self.entries@[j].1.stamp(),
                            self.entries@[j].0@,
                        )
                },
            decreases self.entries.len() - i,
        {
            let eligible = any || !key_listed(spared, &self.entries[i].0);
            if eligible {
                match best {
                    None => {
                        proof {
                            lemma_seq_lt_irreflexive(stable_id(self.entries@[i as int].0@));
                        }
                        best = Some(i);
                    },
                    Some(m) => {
                        let si = self.entries[i].1.stamp_exec();
                        let sm = self.entries[m].1.stamp_exec();
                        let earlier = si < sm || (si == sm && chars_lt(&ids[i], &ids[m]));
                        assert(ids@[i as int]@ == stable_id(self.entries@[i as int].0@));
                        assert(ids@[m as int]@ == stable_id(self.entries@[m as int].0@));
                        assert(earlier == rank_lt(
                            self.entries@[i as int].1.stamp(),
                            self.entries@[i as int].0@,
                            self.entries@[m as int].1.stamp(),
                            self.entries@[m as int].0@,
                        ));
                        if earlier {
                            proof {
                                assert forall|j: int|
                                    0 <= j < i + 1 && (any || !key_in(
                                        spared@,
                                        #[trigger] self.entries@[j].0@,
                                    )) implies rank_le(
                                    self.entries@[i as int].1.stamp(),
                                    self.entries@[i as int].0@,
                                    self.entries@[j].1.stamp(),
                                    self.entries@[j].0@,
                                ) by {
                                    if j < i {
                                        if rank_lt(
                                            self.entries@[j].1.stamp(),
                                            self.entries@[j].0@,
                                            self.entries@[i as int].1.stamp(),
                                            self.entries@[i as int].0@,
                                        ) {
                                            lemma_rank_lt_transitive(
                                                self.entries@[j].1.stamp(),
                                                self.entries@[j].0@,
                                                self.entries@[i as int].1.stamp(),
                                                self.entries@[i as int].0@,
                                                self.entries@[m as int].1.stamp(),
                                                self.entries@[m as int].0@,
                                            );
                                        }
                                    } else {
                                        lemma_seq_lt_irreflexive(
                                            stable_id(self.entries@[i as int].0@),
                                        );
                                    }
                                }
                            }
                            best = Some(i);
                        }
                    },
                }
            }
            i = i + 1;
        }
        best
    }

    /// Evicts entries until at most `max` remain. Entries whose key is in
    /// `spared` leave only when `evict_spared` is set and every other entry has
    /// already left; within each class the earliest in eviction order leave first.
    pub fn prune(&mut self, spared: &Vec<AgentTimingKey>, max: usize, evict_spared: bool)
        requires
            old(self).wf(),
        ensures
            final(self).wf(),
            old(self)@.len() <= max ==> final(self)@ == old(self)@,
            kept_from(old(self)@, final(self)@),
            evicted_in_order(old(self)@, final(self)@, spared@),
            old(self)@.len() > max ==> final(self)@.len() >= max,
            evict_spared ==> final(self)@.len() <= max,
            !evict_spared ==> forall|k: TimingKeyView|
                old(self)@.dom().contains(k) && key_in(spared@, k) ==> final(self)@.dom().contains(
                    k,
                ),
            final(self)@.len() > max ==> forall|k: TimingKeyView|
                #[trigger] final(self)@.dom().contains(k) ==> key_in(spared@, k),
            (exists|k: TimingKeyView|
                old(self)@.dom().contains(k) && !final(self)@.dom().contains(k) && key_in(
                    spared@,
                    k,
                )) ==> forall|k: TimingKeyView| #[trigger]
                final(self)@.dom().contains(k) ==> key_in(spared@, k),
    {
        let ghost before = self@;
        proof {
            lemma_map_of_finite_len(self.entries@);
        }
        if self.entries.len() <= max {
            return;
        }
        let mut ids: Vec<Vec<char>> = Vec::new();
        let mut i: usize = 0;
        while i < self.entries.len()
            invariant
                i <= self.entries.len(),
                ids.len() == i,
                forall|j: int| 0 <= j < i ==> #[trigger] ids@[j]@ == stable_id(
                    self.entries@[j].0@,
                ),
            decreases self.entries.len() - i,
        {
            ids.push(stable_id_exec(&self.entries[i].0));
            i = i + 1;
        }
        let ghost mut spared_gone = false;
        while self.entries.len() > max
            invariant
                self.wf(),
                before.dom().finite(),
                self@.dom().finite(),
                self@.len() == self.entries.len(),
                before.len() > max,
                self.entries.len() >= max,
                ids.len() == self.entries.len(),
                forall|j: int| 0 <= j < ids.len() ==> #[trigger] ids@[j]@ == stable_id(
                    self.entries@[j].0@,
                ),
                kept_from(before, self@),
                evicted_in_order(before, self@, spared@),
                !evict_spared ==> forall|k: TimingKeyView|
                    before.dom().contains(k) && key_in(spared@, k) ==> self@.dom().contains(k),
                (exists|k: TimingKeyView|
                    before.dom().contains(k) && !self@.dom().contains(k) && key_in(spared@, k))
                    ==> forall|k: TimingKeyView| #[trigger]
                    self@.dom().contains(k) ==> key_in(spared@, k),
            ensures
                self.entries.len() <= max || (!evict_spared && forall|k: TimingKeyView| #[trigger]
                    self@.dom().contains(k) ==> key_in(spared@, k)),
            decreases self.entries.len(),
        {
            let mut pick = self.eviction_candidate(&ids, spared, false);
            if pick.is_none() {
                proof {
                    assert forall|k: TimingKeyView| #[trigger]
                        self@.dom().contains(k) implies key_in(spared@, k) by {
                        lemma_map_of_dom(self.entries@, k);
                        let j = choose|j: int|
                            0 <= j < self.entries@.len() && self.entries@[j].0@ == k;
                        assert(key_in(spared@, self.entries@[j].0@));
                    }
                }
                if !evict_spared {
                    break;
                }
                pick = self.eviction_candidate(&ids, spared, true);
            }
            let m = match pick {
                Some(m) => m,
                None => {
                    assert(self.entries.len() > 0);
                    assert(false);
                    0
                },
            };
            let ghost cur = self@;
            let ghost gone = self.entries@[m as int];
            proof {
                lemma_map_of_index(self.entries@, m as int);
                lemma_map_of_remove(self.entries@, m as int);
                assert forall|k: TimingKeyView| #[trigger] cur.dom().contains(k) && k != gone.0@
                    && key_in(spared@, gone.0@) == key_in(spared@, k) implies rank_le(
                    cur[gone.0@].stamp(),
                    gone.0@,
                    cur[k].stamp(),
                    k,
                ) by {
                    lemma_map_of_dom(self.entries@, k);
                    let j = choose|j: int| 0 <= j < self.entries@.len() && self.entries@[j].0@ == k;
                    lemma_map_of_index(self.entries@, j);
                    assert(self.entries@[j].0@ == k);
                }
            }
            let ghost ids_before = ids@;
            self.entries.remove(m);
            ids.remove(m);
            proof {
                lemma_map_of_finite_len(self.entries@);
                assert forall|j: int| 0 <= j < ids.len() implies #[trigger] ids@[j]@ == stable_id(
                    self.entries@[j].0@,
                ) by {
                    if j >= m {
                        assert(ids@[j] == ids_before[j + 1]);
                    }
                }
                assert forall|r: TimingKeyView, k: TimingKeyView|
                    #![trigger before.dom().contains(r), self@.dom().contains(k)]
                    before.dom().contains(r) && !self@.dom().contains(r)
                        && self@.dom().contains(k) && key_in(spared@, r) == key_in(
                        spared@,
                        k,
                    ) implies rank_le(before[r].stamp(), r, before[k].stamp(), k) by {
                    if r == gone.0@ {
                        assert(cur.dom().contains(k));
                    } else {
                        assert(cur.dom().contains(k));
                    }
                }
            }
        }
        proof {
            lemma_map_of_finite_len(self.entries@);
        }
    }
}

} // verus!
