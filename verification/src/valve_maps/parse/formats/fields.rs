//! The key/value pairs of an entity.

use vstd::prelude::*;
use vstd::string::*;
use crate::valve_maps::table::{
    distinct_keys, entries_map, lemma_distinct_keys_push, lemma_entries_map_keys,
    lemma_entries_map_len, lemma_entries_map_update, lemma_entries_map_value,
};

verus! {

/// A key with its value, as text.
pub type Entry = (Seq<char>, Seq<char>);

/// The key/value pairs of an entity, such as
/// `"classname" "light"` or `"origin" "-2704 1908 50"`.
/// Each key has one value.
#[derive(Debug)]
pub struct Fields {
    entries: Vec<(String, String)>,
}

impl View for Fields {
    type V = Map<Seq<char>, Seq<char>>;

    closed spec fn view(&self) -> Map<Seq<char>, Seq<char>> {
        entries_map(self.entries())
    }
}

/// The entries that a list of pairs of strings stands for.
pub open spec fn entries_of(pairs: Seq<(String, String)>) -> Seq<Entry> {
    pairs.map_values(|pair: (String, String)| (pair.0@, pair.1@))
}

impl Fields {
    #[verifier::type_invariant]
    closed spec fn distinct(&self) -> bool {
        distinct_keys(self.entries())
    }

    /// The pairs in the order in which their keys were first inserted.
    pub closed spec fn entries(&self) -> Seq<Entry> {
        entries_of(self.entries@)
    }

    /// No pairs.
    pub fn new() -> (fields: Fields)
        ensures
            fields@ == Map::<Seq<char>, Seq<char>>::empty(),
            fields.entries().len() == 0,
    {
        Fields { entries: Vec::new() }
    }

    /// The index of the entry with the key `name`.
    fn position(&self, name: &String) -> (found: Option<usize>)
        ensures
            match found {
                Some(i) => i < self.entries().len() && self.entries()[i as int].0 == name@,
                None => forall|i: int|
                    0 <= i < self.entries().len() ==> (#[trigger] self.entries()[i]).0 != name@,
            },
    {
        let mut i: usize = 0;
        while i < self.entries.len()
            invariant
                i <= self.entries.len(),
                forall|k: int| 0 <= k < i ==> (#[trigger] self.entries()[k]).0 != name@,
            decreases self.entries.len() - i,
        {
            if self.entries[i].0 == *name {
                return Some(i);
            }
            i += 1;
        }
        None
    }

    /// These pairs with `value` as the value of `key`, in place of the value
    /// it had, if any.
    pub fn insert(self, key: String, value: String) -> (fields: Fields)
        ensures
            fields@ == self@.insert(key@, value@),
    {
        proof {
            use_type_invariant(&self);
        }
        let ghost before = self.entries();
        let found = self.position(&key);
        let mut entries = self.entries;
        match found {
            Some(i) => {
                proof {
                    lemma_entries_map_update(before, i as int, value@);
                    assert(entries_of(entries@.update(i as int, (key, value))) =~= before.update(
                        i as int,
                        (key@, value@),
                    ));
                }
                entries.set(i, (key, value));
            },
            None => {
                proof {
                    let after = entries_of(entries@.push((key, value)));
                    assert(after =~= before.push((key@, value@)));
                    lemma_distinct_keys_push(before, key@, value@);
                }
                entries.push((key, value));
            },
        }
        Fields { entries }
    }

    /// The value of the key `name`.
    pub fn get_property(&self, name: &str) -> (value: Option<&str>)
        ensures
            match value {
                Some(text) => self@.contains_key(name@) && self@[name@] == text@,
                None => !self@.contains_key(name@),
            },
    {
        proof {
            use_type_invariant(self);
            lemma_entries_map_keys(self.entries(), name@);
        }
        let key = name.to_owned();
        match self.position(&key) {
            Some(i) => {
                proof {
                    lemma_entries_map_value(self.entries(), i as int);
                }
                Some(self.entries[i].1.as_str())
            },
            None => None,
        }
    }

    /// The entity is a sensor: its `classname` is `sensor`.
    pub fn is_sensor(&self) -> (sensor: bool)
        ensures
            sensor == (self@.contains_key("classname"@) && self@["classname"@] == "sensor"@),
    {
        match self.get_property("classname") {
            Some(class) => {
                let sensor = "sensor".to_owned();
                class.to_owned() == sensor
            },
            None => false,
        }
    }

    /// The number of keys.
    pub fn len(&self) -> (n: usize)
        ensures
            self@.dom().finite(),
            n == self@.dom().len(),
            n == self.entries().len(),
    {
        proof {
            use_type_invariant(self);
            lemma_entries_map_len(self.entries());
        }
        self.entries.len()
    }

    /// The pairs, each key once, in the order in which the keys were first
    /// inserted.
    pub fn into_inner(self) -> (pairs: Vec<(String, String)>)
        ensures
            entries_of(pairs@) == self.entries(),
            entries_map(entries_of(pairs@)) == self@,
            distinct_keys(entries_of(pairs@)),
    {
        proof {
            use_type_invariant(&self);
        }
        self.entries
    }
}

impl Clone for Fields {
    fn clone(&self) -> (copy: Fields)
        ensures
            copy@ == self@,
            copy.entries() == self.entries(),
    {
        proof {
            use_type_invariant(self);
        }
        let mut entries: Vec<(String, String)> = Vec::new();
        let mut i: usize = 0;
        while i < self.entries.len()
            invariant
                i <= self.entries.len(),
                entries@.len() == i,
                forall|k: int| 0 <= k < i ==> entries@[k] == self.entries@[k],
            decreases self.entries.len() - i,
        {
            let key = self.entries[i].0.clone();
            let value = self.entries[i].1.clone();
            entries.push((key, value));
            i += 1;
        }
        proof {
            assert(entries@ =~= self.entries@);
        }
        Fields { entries }
    }
}

} // verus!
