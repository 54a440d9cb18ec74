//! Settings values and the in-memory settings cache.
use vstd::prelude::*;

use crate::text::eq_str;

verus! {

/// A JSON setting value. Numbers keep the form `serde_json` stores them in;
/// arrays and objects are kept as their JSON text.
#[derive(Clone, Debug)]
pub enum JsonValue {
    Null,
    Bool(bool),
    PosInt(u64),
    NegInt(i64),
    /// IEEE-754 bit pattern of a floating-point number.
    Float(u64),
    Str(String),
    Compound(String),
}

/// What `Value::as_i64` returns.
pub open spec fn json_as_i64(v: JsonValue) -> Option<i64> {
    match v {
        JsonValue::PosInt(n) => if n <= i64::MAX as u64 {
            Some(n as i64)
        } else {
            None
        },
        JsonValue::NegInt(n) => Some(n),
        _ => None,
    }
}

/// The value stored under `key` in a list of entries.
pub open spec fn lookup_in(entries: Seq<(String, JsonValue)>, key: Seq<char>) -> Option<JsonValue> {
    if exists|i: int| 0 <= i < entries.len() && (#[trigger] entries[i]).0@ == key {
        let i = choose|i: int| 0 <= i < entries.len() && (#[trigger] entries[i]).0@ == key;
        Some(entries[i].1)
    } else {
        None
    }
}

/// Keys occur once.
pub open spec fn keys_distinct(entries: Seq<(String, JsonValue)>) -> bool {
    forall|i: int, j: int|
        0 <= i < j < entries.len() ==> (#[trigger] entries[i]).0@ != (#[trigger] entries[j]).0@
}

proof fn lemma_lookup_at(entries: Seq<(String, JsonValue)>, i: int)
    requires
        keys_distinct(entries),
        0 <= i < entries.len(),
    ensures
        lookup_in(entries, entries[i].0@) == Some(entries[i].1),
{
    let key = entries[i].0@;
    assert(entries[i].0@ == key);
    let k = choose|k: int| 0 <= k < entries.len() && (#[trigger] entries[k]).0@ == key;
    if k < i {
        assert(entries[k].0@ != entries[i].0@);
    } else if k > i {
        assert(entries[i].0@ != entries[k].0@);
    }
}

/// In-memory cache of settings for fast access from the AI pipeline; keys
/// are distinct.
pub struct SettingsCache {
    pub map: Vec<(String, JsonValue)>,
}

impl SettingsCache {
    /// The keys are distinct, as in the map the cache is filled from.
    pub open spec fn wf(&self) -> bool {
        keys_distinct(self.map@)
    }

    /// The value stored under `key`.
    pub open spec fn lookup(&self, key: Seq<char>) -> Option<JsonValue> {
        lookup_in(self.map@, key)
    }

    fn position(&self, key: &str) -> (r: Option<usize>)
        requires
            self.wf(),
        ensures
            match r {
                Some(i) => i < self.map@.len() && self.map@[i as int].0@ == key@ && self.lookup(
                    key@,
                ) == Some(self.map@[i as int].1),
                None => self.lookup(key@) is None,
            },
    {
        let mut i: usize = 0;
        while i < self.map.len()
            invariant
                self.wf(),
                i <= self.map@.len(),
                forall|j: int| 0 <= j < i ==> (#[trigger] self.map@[j]).0@ != key@,
            decreases self.map.len() - i,
        {
            if eq_str(self.map[i].0.as_str(), key) {
                proof {
                    assert(self.map@[i as int].0@ == key@);
                    let k = choose|k: int|
                        0 <= k < self.map@.len() && (#[trigger] self.map@[k]).0@ == key@;
                    assert(0 <= k < self.map@.len() && self.map@[k].0@ == key@);
                    if k < i {
                        assert(self.map@[k].0@ != self.map@[i as int].0@);
                    } else if k > i {
                        assert(self.map@[i as int].0@ != self.map@[k].0@);
                    }
                }
                return Some(i);
            }
            i += 1;
        }
        None
    }

    /// The value stored under `key`.
    pub fn get(&self, key: &str) -> (r: Option<&JsonValue>)
        requires
            self.wf(),
        ensures
            match r {
                Some(v) => self.lookup(key@) == Some(*v),
                None => self.lookup(key@) is None,
            },
    {
        match self.position(key) {
            Some(i) => Some(&self.map[i].1),
            None => None,
        }
    }

    /// The text stored under `key`, if it is a JSON string.
    pub fn get_string(&self, key: &str) -> (r: Option<String>)
        requires
            self.wf(),
        ensures
            match self.lookup(key@) {
                Some(JsonValue::Str(s)) => r matches Some(t) && t@ == s@,
                _ => r is None,
            },
    {
        match self.get(key) {
            Some(JsonValue::Str(s)) => Some(s.clone()),
            _ => None,
        }
    }

    /// The boolean stored under `key`; `false` when it is missing or not a
    /// boolean.
    pub fn get_bool(&self, key: &str) -> (r: bool)
        requires
            self.wf(),
        ensures
            r == (self.lookup(key@) == Some(JsonValue::Bool(true))),
    {
        match self.get(key) {
            Some(JsonValue::Bool(b)) => *b,
            _ => false,
        }
    }

    /// The integer stored under `key`, if it is a JSON integer that fits in
    /// `i64`.
    pub fn get_int(&self, key: &str) -> (r: Option<i64>)
        requires
            self.wf(),
        ensures
            r == (match self.lookup(key@) {
                Some(v) => json_as_i64(v),
                None => None,
            }),
    {
        match self.get(key) {
            Some(JsonValue::PosInt(n)) => if *n <= i64::MAX as u64 {
                Some(*n as i64)
            } else {
                None
            },
            Some(JsonValue::NegInt(n)) => Some(*n),
            _ => None,
        }
    }

    /// An empty cache.
    pub fn new() -> (r: SettingsCache)
        ensures
            r.wf(),
            forall|k: Seq<char>| r.lookup(k) is None,
    {
        SettingsCache { map: Vec::new() }
    }

    /// Stores `value` under `key`, replacing what was there.
    pub fn insert(&mut self, key: String, value: JsonValue)
        requires
            old(self).wf(),
        ensures
            final(self).wf(),
            final(self).lookup(key@) == Some(value),
            forall|k: Seq<char>| k != key@ ==> final(self).lookup(k) == old(self).lookup(k),
    {
        let ghost before = self.map@;
        let ghost kv = key@;
        match self.position(key.as_str()) {
            Some(i) => {
                self.map.set(i, (key, value));
                proof {
                    assert forall|j: int| 0 <= j < self.map@.len() implies (#[trigger] self.map@[j]).0@
                        == before[j].0@ by {}
                    lemma_lookup_at(self.map@, i as int);
                    assert forall|x: Seq<char>| x != kv implies lookup_in(self.map@, x) == lookup_in(
                        before,
                        x,
                    ) by {
                        if exists|j: int| 0 <= j < before.len() && (#[trigger] before[j]).0@ == x {
                            let j = choose|j: int| 0 <= j < before.len() && (#[trigger] before[j]).0@ == x;
                            lemma_lookup_at(before, j);
                            lemma_lookup_at(self.map@, j);
                        } else {
                            assert forall|j: int| 0 <= j < self.map@.len() implies (#[trigger] self.map@[j]).0@
                                != x by {
                                assert(before[j].0@ != x);
                            }
                        }
                    }
                }
            },
            None => {
                self.map.push((key, value));
                proof {
                    assert forall|j: int| 0 <= j < before.len() implies (#[trigger] before[j]).0@ != kv by {
                        if before[j].0@ == kv {
                            assert(lookup_in(before, kv) is Some);
                        }
                    }
                    assert(self.map@[before.len() as int].0@ == kv);
                    lemma_lookup_at(self.map@, before.len() as int);
                    assert forall|x: Seq<char>| x != kv implies lookup_in(self.map@, x) == lookup_in(
                        before,
                        x,
                    ) by {
                        if exists|j: int| 0 <= j < before.len() && (#[trigger] before[j]).0@ == x {
                            let j = choose|j: int| 0 <= j < before.len() && (#[trigger] before[j]).0@ == x;
                            lemma_lookup_at(before, j);
                            assert(self.map@[j] == before[j]);
                            lemma_lookup_at(self.map@, j);
                        } else {
                            assert forall|j: int| 0 <= j < self.map@.len() implies (#[trigger] self.map@[j]).0@
                                != x by {
                                if j < before.len() {
                                    assert(self.map@[j] == before[j]);
                                }
                            }
                        }
                    }
                }
            },
        }
    }
}

} // verus!
