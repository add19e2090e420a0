//! An ordered property map: the attributes of one feature, in schema
//! order, with keys unique by name and later inserts overwriting the
//! value of an existing key in place.

use vstd::prelude::*;
use crate::jsonval::JsonValue;
use crate::strutil::str_eq;

verus! {

/// One feature's properties: name/value pairs in insertion order.
#[derive(Debug, Clone)]
pub struct PropMap {
    pub entries: Vec<(String, JsonValue)>,
}

/// The first index holding `key`, or the length when there is none.
pub open spec fn find_key(e: Seq<(String, JsonValue)>, key: Seq<char>, from: int) -> int
    decreases e.len() - from,
{
    if from < 0 || from >= e.len() {
        e.len() as int
    } else if e[from].0@ == key {
        from
    } else {
        find_key(e, key, from + 1)
    }
}

pub proof fn lemma_find_key_range(e: Seq<(String, JsonValue)>, key: Seq<char>, from: int)
    requires
        0 <= from <= e.len(),
    ensures
        from <= find_key(e, key, from) <= e.len(),
        forall|j: int| from <= j < find_key(e, key, from) ==> (#[trigger] e[j]).0@ != key,
        find_key(e, key, from) < e.len() ==> e[find_key(e, key, from)].0@ == key,
    decreases e.len() - from,
{
    if from < e.len() && e[from].0@ != key {
        lemma_find_key_range(e, key, from + 1);
    }
}

/// Insertion: overwrite in place when the key is present, append when
/// it is not.
pub open spec fn insert_entry_spec(
    e: Seq<(String, JsonValue)>,
    ent: (String, JsonValue),
) -> Seq<(String, JsonValue)> {
    let i = find_key(e, ent.0@, 0);
    if i < e.len() {
        e.update(i, ent)
    } else {
        e.push(ent)
    }
}

/// A fold of insertions, oldest first.
pub open spec fn fold_insert(
    base: Seq<(String, JsonValue)>,
    es: Seq<(String, JsonValue)>,
) -> Seq<(String, JsonValue)>
    decreases es.len(),
{
    if es.len() == 0 {
        base
    } else {
        insert_entry_spec(fold_insert(base, es.drop_last()), es.last())
    }
}

impl PropMap {
    /// Keys are unique by content.
    pub open spec fn wf(&self) -> bool {
        unique_keys(self.entries@)
    }

    pub fn new() -> (r: PropMap)
        ensures
            r.wf(),
            r.entries@ =~= Seq::<(String, JsonValue)>::empty(),
    {
        PropMap { entries: Vec::new() }
    }

    pub fn len(&self) -> (r: usize)
        ensures
            r == self.entries@.len(),
    {
        self.entries.len()
    }

    fn find(&self, key: &str) -> (r: usize)
        ensures
            r == find_key(self.entries@, key@, 0),
            r <= self.entries@.len(),
    {
        let n = self.entries.len();
        let mut i: usize = 0;
        loop
            invariant
                0 <= i <= n,
                n == self.entries@.len(),
                find_key(self.entries@, key@, 0) == find_key(self.entries@, key@, i as int),
            ensures
                i <= n,
                find_key(self.entries@, key@, 0) == i as int,
            decreases n - i,
        {
            if i < n {
                if str_eq(self.entries[i].0.as_str(), key) {
                    break;
                }
                i = i + 1;
            } else {
                break;
            }
        }
        i
    }

    /// The value stored under `key`, when one is.
    pub fn get(&self, key: &str) -> (r: Option<&JsonValue>)
        ensures
            match r {
                Some(v) => {
                    let i = find_key(self.entries@, key@, 0);
                    i < self.entries@.len() && v == &self.entries@[i].1
                },
                None => find_key(self.entries@, key@, 0) == self.entries@.len(),
            },
    {
        let i = self.find(key);
        if i < self.entries.len() {
            Some(&self.entries[i].1)
        } else {
            None
        }
    }

    /// Insert, overwriting in place when the key exists and appending
    /// when it does not; uniqueness of keys is preserved.
    pub fn insert(&mut self, key: String, val: JsonValue)
        requires
            old(self).wf(),
        ensures
            final(self).wf(),
            final(self).entries@ == insert_entry_spec(old(self).entries@, (key, val)),
    {
        let i = self.find(key.as_str());
        proof {
            lemma_find_key_range(self.entries@, key@, 0);
        }
        if i < self.entries.len() {
            self.entries.set(i, (key, val));
            proof {
                assert(self.entries@ =~= insert_entry_spec(old(self).entries@, (key, val)));
            }
        } else {
            self.entries.push((key, val));
            proof {
                assert(self.entries@ =~= insert_entry_spec(old(self).entries@, (key, val)));
            }
        }
    }
}

/// The mathematical map an entry list denotes: each key's latest value.
pub open spec fn as_map(e: Seq<(String, JsonValue)>) -> Map<Seq<char>, JsonValue>
    decreases e.len(),
{
    if e.len() == 0 {
        Map::empty()
    } else {
        as_map(e.drop_last()).insert(e.last().0@, e.last().1)
    }
}

pub open spec fn unique_keys(e: Seq<(String, JsonValue)>) -> bool {
    forall|k1: int, k2: int|
        0 <= k1 < k2 < e.len() ==> (#[trigger] e[k1]).0@ != (#[trigger] e[k2]).0@
}

proof fn lemma_as_map_update(e: Seq<(String, JsonValue)>, i: int, ent: (String, JsonValue))
    requires
        unique_keys(e),
        0 <= i < e.len(),
        e[i].0@ == ent.0@,
    ensures
        as_map(e.update(i, ent)) == as_map(e).insert(ent.0@, ent.1),
    decreases e.len(),
{
    let r = e.update(i, ent);
    if i == e.len() - 1 {
        assert(r.drop_last() =~= e.drop_last());
        assert(r.last() == ent);
        assert(as_map(r) == as_map(e.drop_last()).insert(ent.0@, ent.1));
        assert(as_map(e.drop_last()).insert(e.last().0@, e.last().1).insert(ent.0@, ent.1)
            =~= as_map(e.drop_last()).insert(ent.0@, ent.1));
    } else {
        let d = e.drop_last();
        assert(unique_keys(d)) by {
            assert(forall|k1: int, k2: int|
                0 <= k1 < k2 < d.len() ==> d[k1] == e[k1] && d[k2] == e[k2]);
        }
        assert(d[i] == e[i]);
        lemma_as_map_update(d, i, ent);
        assert(r.drop_last() =~= d.update(i, ent));
        assert(r.last() == e.last());
        assert(as_map(r) == as_map(d).insert(ent.0@, ent.1).insert(e.last().0@, e.last().1));
        // the two keys differ, so the inserts commute
        assert(e[i].0@ != e.last().0@);
        assert(as_map(d).insert(ent.0@, ent.1).insert(e.last().0@, e.last().1)
            =~= as_map(d).insert(e.last().0@, e.last().1).insert(ent.0@, ent.1));
    }
}

/// The map law of insertion: inserting a pair updates the denoted map
/// at exactly the inserted key — the later write wins there, and every
/// other key keeps its value.
pub proof fn lemma_insert_map(e: Seq<(String, JsonValue)>, ent: (String, JsonValue))
    requires
        unique_keys(e),
    ensures
        as_map(insert_entry_spec(e, ent)) == as_map(e).insert(ent.0@, ent.1),
{
    lemma_find_key_range(e, ent.0@, 0);
    let i = find_key(e, ent.0@, 0);
    if i < e.len() {
        lemma_as_map_update(e, i, ent);
    } else {
        let r = e.push(ent);
        assert(r.drop_last() =~= e);
        assert(as_map(r) == as_map(e).insert(ent.0@, ent.1));
    }
}

/// Inserting never removes other keys and leaves order stable: the
/// entry list after an insert holds the new pair at the old key's index
/// or at the end, and every other entry unchanged.
pub proof fn lemma_insert_shape(e: Seq<(String, JsonValue)>, ent: (String, JsonValue))
    ensures
        ({
            let r = insert_entry_spec(e, ent);
            let i = find_key(e, ent.0@, 0);
            &&& (i < e.len() ==> r.len() == e.len() && r[i] == ent && (forall|j: int|
                0 <= j < e.len() && j != i ==> r[j] == e[j]))
            &&& (i == e.len() ==> r.len() == e.len() + 1 && r[i as int] == ent && (forall|j: int|
                0 <= j < e.len() ==> r[j] == e[j]))
        }),
{
    lemma_find_key_range(e, ent.0@, 0);
}

} // verus!
