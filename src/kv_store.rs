//! The context store: every context owns a partition that maps keys to values.
//! Both levels are association lists whose keys are kept unique; their model
//! is a map of maps.

use vstd::prelude::*;

verus! {

/// The mathematical content of one partition: key to value.
pub type PartitionModel = Map<Seq<char>, Seq<char>>;

/// The mathematical content of the whole store: context name to partition.
pub type StoreModel = Map<Seq<char>, PartitionModel>;

/// Some entry of `s` carries the key `k`.
pub open spec fn has_key<V>(s: Seq<(String, V)>, k: Seq<char>) -> bool {
    exists|i: int| 0 <= i < s.len() && (#[trigger] s[i]).0@ == k
}

/// The position of an entry of `s` that carries the key `k`.
pub open spec fn index_of<V>(s: Seq<(String, V)>, k: Seq<char>) -> int {
    choose|i: int| 0 <= i < s.len() && (#[trigger] s[i]).0@ == k
}

/// No two entries of `s` carry the same key.
pub open spec fn keys_unique<V>(s: Seq<(String, V)>) -> bool {
    forall|i: int, j: int|
        #![trigger s[i], s[j]]
        0 <= i < s.len() && 0 <= j < s.len() && s[i].0@ == s[j].0@ ==> i == j
}

/// The map that a list of key/value entries stands for.
pub open spec fn partition_view(s: Seq<(String, String)>) -> PartitionModel {
    Map::new(|k: Seq<char>| has_key(s, k), |k: Seq<char>| s[index_of(s, k)].1@)
}

/// The map of maps that a list of contexts stands for.
pub open spec fn store_view(s: Seq<(String, Vec<(String, String)>)>) -> StoreModel {
    Map::new(|c: Seq<char>| has_key(s, c), |c: Seq<char>| partition_view(s[index_of(s, c)].1@))
}

/// Every entry list in the store, and the list of contexts, has unique keys.
pub open spec fn store_wf(s: Seq<(String, Vec<(String, String)>)>) -> bool {
    &&& keys_unique(s)
    &&& forall|i: int| 0 <= i < s.len() ==> keys_unique((#[trigger] s[i]).1@)
}

/// What a read of `key` in `context` finds.
pub open spec fn lookup(m: StoreModel, context: Seq<char>, key: Seq<char>) -> Option<Seq<char>> {
    if m.contains_key(context) && m[context].contains_key(key) {
        Some(m[context][key])
    } else {
        None
    }
}

/// The partition of `context`, or an empty one where the context was never written.
pub open spec fn partition_of(m: StoreModel, context: Seq<char>) -> PartitionModel {
    if m.contains_key(context) {
        m[context]
    } else {
        Map::empty()
    }
}

/// The store after `value` is written under `key` in `context`.
pub open spec fn after_set(
    m: StoreModel,
    context: Seq<char>,
    key: Seq<char>,
    value: Seq<char>,
) -> StoreModel {
    m.insert(context, partition_of(m, context).insert(key, value))
}

/// The store after `key` is removed from `context`.
pub open spec fn after_delete(m: StoreModel, context: Seq<char>, key: Seq<char>) -> StoreModel {
    if m.contains_key(context) {
        m.insert(context, m[context].remove(key))
    } else {
        m
    }
}

proof fn lemma_index_of<V>(s: Seq<(String, V)>, i: int)
    requires
        keys_unique(s),
        0 <= i < s.len(),
    ensures
        has_key(s, s[i].0@),
        index_of(s, s[i].0@) == i,
{
    let k = s[i].0@;
    assert(has_key(s, k));
    let j = index_of(s, k);
    assert(0 <= j < s.len() && s[j].0@ == k);
}

/// Finds the position of the entry whose key is `key`.
fn find_index<V>(entries: &Vec<(String, V)>, key: &String) -> (r: Option<usize>)
    ensures
        match r {
            Some(i) => i < entries@.len() && entries@[i as int].0@ == key@,
            None => !has_key(entries@, key@),
        },
{
    let mut i: usize = 0;
    while i < entries.len()
        invariant
            i <= entries@.len(),
            forall|j: int| 0 <= j < i ==> (#[trigger] entries@[j]).0@ != key@,
        decreases entries@.len() - i,
    {
        if entries[i].0 == *key {
            return Some(i);
        }
        i = i + 1;
    }
    None
}

/// Writes `value` under `key`, replacing an earlier value of that key.
fn put_entry(entries: &mut Vec<(String, String)>, key: String, value: String)
    requires
        keys_unique(old(entries)@),
    ensures
        keys_unique(final(entries)@),
        partition_view(final(entries)@) == partition_view(old(entries)@).insert(key@, value@),
{
    let ghost s = entries@;
    let ghost k = key@;
    let ghost v = value@;
    match find_index(entries, &key) {
        Some(i) => {
            let ghost e = (key, value);
            entries.set(i, (key, value));
            proof {
                lemma_update_keeps_keys(s, i as int, e);
                lemma_index_of(s, i as int);
            }
            assert(partition_view(entries@) =~= partition_view(s).insert(k, v));
        },
        None => {
            let ghost e = (key, value);
            entries.push((key, value));
            proof {
                lemma_push_new_key(s, e);
                assert(entries@[s.len() as int] == e);
                assert forall|x: Seq<char>| has_key(s, x) implies entries@[index_of(s, x)] == s[index_of(s, x)] by {}
            }
            assert(partition_view(entries@) =~= partition_view(s).insert(k, v));
        },
    }
}

/// Removes the entry of `key`, where there is one.
fn drop_entry(entries: &mut Vec<(String, String)>, key: &String)
    requires
        keys_unique(old(entries)@),
    ensures
        keys_unique(final(entries)@),
        partition_view(final(entries)@) == partition_view(old(entries)@).remove(key@),
{
    let ghost s = entries@;
    let ghost k = key@;
    match find_index(entries, key) {
        Some(i) => {
            let _ = entries.remove(i);
            let ghost t = entries@;
            assert forall|a: int| 0 <= a < t.len() implies #[trigger] t[a] == s[if a < i { a } else { a + 1 }] by {}
            assert(keys_unique(t)) by {
                assert forall|a: int, b: int|
                    0 <= a < t.len() && 0 <= b < t.len() && t[a].0@ == t[b].0@ implies a == b by {
                    let a1 = if a < i { a } else { a + 1 };
                    let b1 = if b < i { b } else { b + 1 };
                    assert(t[a] == s[a1] && t[b] == s[b1]);
                }
            }
            proof { lemma_index_of(s, i as int); }
            assert forall|x: Seq<char>| has_key(t, x) <==> (has_key(s, x) && x != k) by {
                if has_key(t, x) {
                    let a = index_of(t, x);
                    let a1 = if a < i { a } else { a + 1 };
                    assert(t[a] == s[a1]);
                    assert(a1 != i);
                }
                if has_key(s, x) && x != k {
                    let a = index_of(s, x);
                    assert(a != i);
                    let a0 = if a < i { a } else { a - 1 };
                    assert(t[a0] == s[a]);
                }
            }
            assert forall|x: Seq<char>| has_key(t, x) implies t[index_of(t, x)].1@ == s[index_of(s, x)].1@ by {
                let a = index_of(t, x);
                let a1 = if a < i { a } else { a + 1 };
                assert(t[a] == s[a1]);
                lemma_index_of(s, a1);
            }
            assert(partition_view(t) =~= partition_view(s).remove(k));
        },
        None => {
            assert(partition_view(s) =~= partition_view(s).remove(k));
        },
    }
}

proof fn lemma_update_keeps_keys<V>(s: Seq<(String, V)>, i: int, e: (String, V))
    requires
        keys_unique(s),
        0 <= i < s.len(),
        e.0@ == s[i].0@,
    ensures
        keys_unique(s.update(i, e)),
        forall|x: Seq<char>| has_key(s.update(i, e), x) <==> has_key(s, x),
        forall|x: Seq<char>|
            has_key(s, x) ==> index_of(s.update(i, e), x) == #[trigger] index_of(s, x),
{
    let t = s.update(i, e);
    assert forall|a: int, b: int|
        0 <= a < t.len() && 0 <= b < t.len() && t[a].0@ == t[b].0@ implies a == b by {
        assert(t[a].0@ == s[a].0@ && t[b].0@ == s[b].0@);
    }
    assert forall|x: Seq<char>| has_key(t, x) <==> has_key(s, x) by {
        if has_key(t, x) {
            let a = index_of(t, x);
            assert(s[a].0@ == x);
        }
        if has_key(s, x) {
            let a = index_of(s, x);
            assert(t[a].0@ == x);
        }
    }
    assert forall|x: Seq<char>| has_key(s, x) implies index_of(t, x) == index_of(s, x) by {
        let a = index_of(s, x);
        assert(t[a].0@ == s[a].0@);
        lemma_index_of(t, a);
    }
}

proof fn lemma_push_new_key<V>(s: Seq<(String, V)>, e: (String, V))
    requires
        keys_unique(s),
        !has_key(s, e.0@),
    ensures
        keys_unique(s.push(e)),
        forall|x: Seq<char>| has_key(s.push(e), x) <==> (has_key(s, x) || x == e.0@),
        forall|x: Seq<char>| has_key(s, x) ==> index_of(s.push(e), x) == #[trigger] index_of(s, x),
        index_of(s.push(e), e.0@) == s.len(),
{
    let t = s.push(e);
    assert(t[s.len() as int] == e);
    assert forall|a: int, b: int|
        0 <= a < t.len() && 0 <= b < t.len() && t[a].0@ == t[b].0@ implies a == b by {
        if a < s.len() {
            assert(t[a] == s[a]);
        }
        if b < s.len() {
            assert(t[b] == s[b]);
        }
    }
    assert forall|x: Seq<char>| has_key(t, x) <==> (has_key(s, x) || x == e.0@) by {
        if has_key(t, x) {
            let a = index_of(t, x);
            if a < s.len() {
                assert(t[a] == s[a]);
            }
        }
        if has_key(s, x) {
            let a = index_of(s, x);
            assert(t[a] == s[a]);
        }
    }
    assert forall|x: Seq<char>| has_key(s, x) implies index_of(t, x) == index_of(s, x) by {
        let a = index_of(s, x);
        assert(t[a] == s[a]);
        lemma_index_of(t, a);
    }
    lemma_index_of(t, s.len() as int);
}

/// A copy of a partition's entries, value for value.
fn copy_entries(entries: &Vec<(String, String)>) -> (r: Vec<(String, String)>)
    ensures
        r@ == entries@,
{
    let mut r: Vec<(String, String)> = Vec::new();
    let mut i: usize = 0;
    while i < entries.len()
        invariant
            i <= entries@.len(),
            r@ == entries@.subrange(0, i as int),
        decreases entries@.len() - i,
    {
        r.push((entries[i].0.clone(), entries[i].1.clone()));
        i = i + 1;
    }
    assert(r@ =~= entries@);
    r
}

/// Every context with its partition. The store serialises all reads and
/// writes behind the one lock that its owner holds around it.
pub struct KeyValueStore {
    contexts: Vec<(String, Vec<(String, String)>)>,
}

impl View for KeyValueStore {
    type V = StoreModel;

    closed spec fn view(&self) -> StoreModel {
        store_view(self.contexts@)
    }
}

impl KeyValueStore {
    /// Context names are unique, and so are the keys of each partition.
    pub closed spec fn wf(&self) -> bool {
        store_wf(self.contexts@)
    }

    /// The value under `key` in `context`, or `None` where the context was
    /// never written or holds no such key: the two are not told apart.
    pub fn get(&self, context: &str, key: &str) -> (r: Option<String>)
        requires
            self.wf(),
        ensures
            match r {
                Some(v) => lookup(self@, context@, key@) == Some(v@),
                None => lookup(self@, context@, key@) is None,
            },
    {
        let c = String::from_str(context);
        let k = String::from_str(key);
        match find_index(&self.contexts, &c) {
            None => None,
            Some(i) => {
                proof { lemma_index_of(self.contexts@, i as int); }
                let part = &self.contexts[i].1;
                match find_index(part, &k) {
                    None => None,
                    Some(j) => {
                        proof { lemma_index_of(part@, j as int); }
                        Some(part[j].1.clone())
                    },
                }
            },
        }
    }

    /// Writes `value` under `key` in `context`, creating the context's
    /// partition where there is none yet. Any value is accepted.
    pub fn set(&mut self, context: &str, key: &str, value: String)
        requires
            old(self).wf(),
        ensures
            final(self).wf(),
            final(self)@ == after_set(old(self)@, context@, key@, value@),
    {
        let ghost s = self.contexts@;
        let c = String::from_str(context);
        let k = String::from_str(key);
        match find_index(&self.contexts, &c) {
            Some(i) => {
                let (name, mut part) = self.contexts.remove(i);
                proof { lemma_index_of(s, i as int); }
                assert(part@ == s[i as int].1@);
                put_entry(&mut part, k, value);
                let ghost e = (name, part);
                self.contexts.insert(i, (name, part));
                assert(self.contexts@ =~= s.update(i as int, e));
                proof {
                    lemma_update_keeps_keys(s, i as int, e);
                    let t = s.update(i as int, e);
                    assert forall|a: int| 0 <= a < t.len() implies keys_unique((#[trigger] t[a]).1@) by {
                        if a != i {
                            assert(t[a] == s[a]);
                        }
                    }
                    assert forall|x: Seq<char>| has_key(s, x) && x != c@ implies
                        t[index_of(t, x)] == s[index_of(s, x)] by {
                        lemma_index_of(s, i as int);
                    }
                    lemma_index_of(t, i as int);
                    assert(store_view(t) =~= after_set(store_view(s), context@, key@, value@));
                }
            },
            None => {
                let mut part: Vec<(String, String)> = Vec::new();
                assert(partition_view(part@) =~= Map::empty());
                put_entry(&mut part, k, value);
                let ghost e = (c, part);
                self.contexts.push((c, part));
                proof {
                    lemma_push_new_key(s, e);
                    let t = s.push(e);
                    assert(t[s.len() as int] == e);
                    assert forall|a: int| 0 <= a < t.len() implies keys_unique((#[trigger] t[a]).1@) by {
                        if a < s.len() {
                            assert(t[a] == s[a]);
                        }
                    }
                    assert forall|x: Seq<char>| has_key(s, x) implies
                        t[index_of(t, x)] == s[index_of(s, x)] by {
                        assert(t[index_of(s, x)] == s[index_of(s, x)]);
                    }
                    assert(store_view(t) =~= after_set(store_view(s), context@, key@, value@));
                }
            },
        }
    }
    /// Removes `key` from `context`. Removing a key that is not there changes
    /// nothing and is no error.
    pub fn delete(&mut self, context: &str, key: &str)
        requires
            old(self).wf(),
        ensures
            final(self).wf(),
            final(self)@ == after_delete(old(self)@, context@, key@),
    {
        let ghost s = self.contexts@;
        let c = String::from_str(context);
        let k = String::from_str(key);
        match find_index(&self.contexts, &c) {
            Some(i) => {
                let (name, mut part) = self.contexts.remove(i);
                proof { lemma_index_of(s, i as int); }
                assert(part@ == s[i as int].1@);
                drop_entry(&mut part, &k);
                let ghost e = (name, part);
                self.contexts.insert(i, (name, part));
                assert(self.contexts@ =~= s.update(i as int, e));
                proof {
                    lemma_update_keeps_keys(s, i as int, e);
                    let t = s.update(i as int, e);
                    assert forall|a: int| 0 <= a < t.len() implies keys_unique((#[trigger] t[a]).1@) by {
                        if a != i {
                            assert(t[a] == s[a]);
                        }
                    }
                    lemma_index_of(t, i as int);
                    assert(store_view(t) =~= after_delete(store_view(s), context@, key@));
                }
            },
            None => {},
        }
    }

    /// A deep copy of every context and its entries, for a read-only view that
    /// must hold no reference into the live store.
    pub fn snapshot(&self) -> (r: Vec<(String, Vec<(String, String)>)>)
        requires
            self.wf(),
        ensures
            store_wf(r@),
            store_view(r@) == self@,
    {
        let mut r: Vec<(String, Vec<(String, String)>)> = Vec::new();
        let mut i: usize = 0;
        while i < self.contexts.len()
            invariant
                i <= self.contexts@.len(),
                r@.len() == i,
                forall|a: int|
                    0 <= a < i ==> (#[trigger] r@[a]).0 == self.contexts@[a].0 && r@[a].1@
                        == self.contexts@[a].1@,
            decreases self.contexts@.len() - i,
        {
            r.push((self.contexts[i].0.clone(), copy_entries(&self.contexts[i].1)));
            i = i + 1;
        }
        proof {
            let s = self.contexts@;
            let t = r@;
            assert forall|a: int, b: int|
                0 <= a < t.len() && 0 <= b < t.len() && t[a].0@ == t[b].0@ implies a == b by {
                assert(t[a].0 == s[a].0 && t[b].0 == s[b].0);
            }
            assert forall|a: int| 0 <= a < t.len() implies keys_unique((#[trigger] t[a]).1@) by {
                assert(t[a].1@ == s[a].1@);
            }
            assert forall|x: Seq<char>| has_key(t, x) <==> has_key(s, x) by {
                if has_key(t, x) {
                    let a = index_of(t, x);
                    assert(s[a].0 == t[a].0);
                }
                if has_key(s, x) {
                    let a = index_of(s, x);
                    assert(s[a].0 == t[a].0);
                }
            }
            assert forall|x: Seq<char>| has_key(s, x) implies index_of(t, x) == index_of(s, x) by {
                let a = index_of(s, x);
                assert(s[a].0 == t[a].0);
                lemma_index_of(t, a);
            }
            assert(store_view(t) =~= store_view(s));
        }
        r
    }
}

/// An empty store: no context exists.
pub fn new() -> (r: KeyValueStore)
    ensures
        r.wf(),
        r@ == StoreModel::empty(),
{
    let r = KeyValueStore { contexts: Vec::new() };
    assert(r@ =~= StoreModel::empty());
    r
}

/// A write touches exactly its own context and key: reading that pair gives
/// the value written, reading any other pair gives what it gave before.
pub proof fn lemma_write_then_lookup(
    m: StoreModel,
    context: Seq<char>,
    key: Seq<char>,
    value: Seq<char>,
    c: Seq<char>,
    k: Seq<char>,
)
    ensures
        lookup(after_set(m, context, key, value), c, k) == if c == context && k == key {
            Some(value)
        } else {
            lookup(m, c, k)
        },
{
}

/// Reading back a key just written gives the written value, unchanged.
pub proof fn lemma_set_get_round_trip(
    m: StoreModel,
    context: Seq<char>,
    key: Seq<char>,
    value: Seq<char>,
)
    ensures
        lookup(after_set(m, context, key, value), context, key) == Some(value),
{
    lemma_write_then_lookup(m, context, key, value, context, key);
}

/// A context that was never written and a key never written in an existing
/// context read the same: not found.
pub proof fn lemma_unwritten_not_found(m: StoreModel, context: Seq<char>, key: Seq<char>)
    requires
        !m.contains_key(context) || !m[context].contains_key(key),
    ensures
        lookup(m, context, key) is None,
{
}

/// Deleting twice leaves the store as deleting once does, and the key then
/// reads as not found.
pub proof fn lemma_delete_idempotent(m: StoreModel, context: Seq<char>, key: Seq<char>)
    ensures
        after_delete(after_delete(m, context, key), context, key) == after_delete(m, context, key),
        lookup(after_delete(m, context, key), context, key) is None,
{
    if m.contains_key(context) {
        let once = after_delete(m, context, key);
        assert(once[context].remove(key) =~= once[context]);
        assert(after_delete(once, context, key) =~= once);
    }
}

/// Contexts are isolated: writing a key in one context leaves the same key
/// in any other context as it was.
pub proof fn lemma_contexts_isolated(
    m: StoreModel,
    context: Seq<char>,
    other: Seq<char>,
    key: Seq<char>,
    value: Seq<char>,
)
    requires
        context != other,
    ensures
        lookup(after_set(m, context, key, value), other, key) == lookup(m, other, key),
{
    lemma_write_then_lookup(m, context, key, value, other, key);
}

/// The store after each write of `writes` (context, key, value) in turn.
pub open spec fn write_all(m: StoreModel, writes: Seq<(Seq<char>, Seq<char>, Seq<char>)>) -> StoreModel
    decreases writes.len(),
{
    if writes.len() == 0 {
        m
    } else {
        let w = writes.last();
        after_set(write_all(m, writes.drop_last()), w.0, w.1, w.2)
    }
}

/// Writes serialised one after another, each to its own context and key,
/// can all be read back afterwards, whatever their order.
pub proof fn lemma_serialised_writes_readable(
    m: StoreModel,
    writes: Seq<(Seq<char>, Seq<char>, Seq<char>)>,
)
    requires
        forall|i: int, j: int|
            #![trigger writes[i], writes[j]]
            0 <= i < writes.len() && 0 <= j < writes.len() && i != j ==> (writes[i].0, writes[i].1)
                != (writes[j].0, writes[j].1),
    ensures
        forall|i: int|
            0 <= i < writes.len() ==> lookup(write_all(m, writes), (#[trigger] writes[i]).0, writes[i].1)
                == Some(writes[i].2),
    decreases writes.len(),
{
    if writes.len() > 0 {
        let rest = writes.drop_last();
        let w = writes.last();
        assert forall|i: int, j: int|
            #![trigger rest[i], rest[j]]
            0 <= i < rest.len() && 0 <= j < rest.len() && i != j implies (rest[i].0, rest[i].1)
                != (rest[j].0, rest[j].1) by {
            assert(rest[i] == writes[i] && rest[j] == writes[j]);
        }
        lemma_serialised_writes_readable(m, rest);
        assert forall|i: int| 0 <= i < writes.len() implies lookup(
            write_all(m, writes),
            (#[trigger] writes[i]).0,
            writes[i].1,
        ) == Some(writes[i].2) by {
            lemma_write_then_lookup(write_all(m, rest), w.0, w.1, w.2, writes[i].0, writes[i].1);
            if i < rest.len() {
                assert(rest[i] == writes[i]);
                assert(writes[i] != writes[writes.len() - 1]);
            }
        }
    }
}

} // verus!
