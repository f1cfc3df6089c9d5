//! JSON documents as exchanged with the ArchivesSpace API, and the lookups
//! that the record decoding needs.
use vstd::prelude::*;
use crate::text::str_equal;

verus! {

/// A JSON value. Numbers are kept in their textual form: nothing here
/// computes with them. An object keeps its members in order; a key is looked
/// up at its first occurrence.
#[derive(Debug, PartialEq, Eq)]
pub enum Json {
    Null,
    Bool(bool),
    Number(String),
    Str(String),
    Array(Vec<Json>),
    Object(Vec<(String, Json)>),
}

/// Entry `i` is the first entry with key `key`.
pub open spec fn is_first_key(entries: Seq<(String, Json)>, key: Seq<char>, i: int) -> bool {
    &&& 0 <= i < entries.len()
    &&& entries[i].0@ == key
    &&& forall|j: int| 0 <= j < i ==> (#[trigger] entries[j]).0@ != key
}

/// The position of `key` among the entries: its first occurrence, or the
/// length when it is absent.
pub open spec fn field_pos(entries: Seq<(String, Json)>, key: Seq<char>) -> int {
    if exists|i: int| is_first_key(entries, key, i) {
        choose|i: int| is_first_key(entries, key, i)
    } else {
        entries.len() as int
    }
}

/// The member `key` of an object's entries.
pub open spec fn field(entries: Seq<(String, Json)>, key: Seq<char>) -> Option<Json> {
    if exists|i: int| is_first_key(entries, key, i) {
        Some(entries[field_pos(entries, key)].1)
    } else {
        None
    }
}

/// `value[key]` in `serde_json` terms: the member of an object, `None` for
/// anything else.
pub open spec fn member(value: Json, key: Seq<char>) -> Option<Json> {
    match value {
        Json::Object(entries) => field(entries@, key),
        _ => None,
    }
}

/// `value[i]`: the element of an array, `None` for anything else.
pub open spec fn element(value: Json, i: int) -> Option<Json> {
    match value {
        Json::Array(items) => if 0 <= i < items@.len() {
            Some(items@[i])
        } else {
            None
        },
        _ => None,
    }
}

/// `new` is `old` with the member `key` set: replaced in place when present,
/// appended otherwise; every other entry is untouched.
pub open spec fn replaces_field(old: Seq<(String, Json)>, new: Seq<(String, Json)>, key: Seq<char>) -> bool {
    let p = field_pos(old, key);
    &&& new.len() == (if p < old.len() { old.len() } else { old.len() + 1 })
    &&& forall|j: int| 0 <= j < old.len() && j != p ==> new[j] == old[j]
    &&& new[p].0@ == key
}

/// The first occurrence of a key is unique.
pub proof fn lemma_first_key_unique(entries: Seq<(String, Json)>, key: Seq<char>, i: int)
    requires
        is_first_key(entries, key, i),
    ensures
        field_pos(entries, key) == i,
        field(entries, key) == Some(entries[i].1),
{
    let p = choose|p: int| is_first_key(entries, key, p);
    if p < i {
        assert(entries[p].0@ != key);
    } else if p > i {
        assert(entries[i].0@ != key);
    }
}

/// Position of the first entry with key `key`.
pub fn find_field(entries: &Vec<(String, Json)>, key: &str) -> (res: Option<usize>)
    ensures
        match res {
            Some(i) => is_first_key(entries@, key@, i as int) && field_pos(entries@, key@) == i
                && field(entries@, key@) == Some(entries@[i as int].1),
            None => field(entries@, key@) is None && field_pos(entries@, key@) == entries@.len()
                && forall|j: int| 0 <= j < entries@.len() ==> (#[trigger] entries@[j]).0@ != key@,
        },
{
    let mut i: usize = 0;
    while i < entries.len()
        invariant
            i <= entries@.len(),
            forall|j: int| 0 <= j < i ==> (#[trigger] entries@[j]).0@ != key@,
        decreases entries@.len() - i,
    {
        if str_equal(entries[i].0.as_str(), key) {
            proof {
                lemma_first_key_unique(entries@, key@, i as int);
            }
            return Some(i);
        }
        i = i + 1;
    }
    assert(!exists|p: int| is_first_key(entries@, key@, p));
    None
}

/// Sets the member `key` of an object's entries to `value`, as assigning
/// `object[key] = value` does on a `serde_json` object.
pub fn set_field(entries: &mut Vec<(String, Json)>, key: &str, value: Json)
    ensures
        replaces_field(old(entries)@, final(entries)@, key@),
        final(entries)@[field_pos(old(entries)@, key@)].1 == value,
        field(final(entries)@, key@) == Some(value),
{
    let ghost old_entries = entries@;
    match find_field(entries, key) {
        Some(i) => {
            entries[i] = (key.to_owned(), value);
            proof {
                let e = entries@;
                assert forall|j: int| 0 <= j < i implies (#[trigger] e[j]).0@ != key@ by {
                    assert(e[j] == old_entries[j]);
                }
                assert(is_first_key(e, key@, i as int));
                lemma_first_key_unique(e, key@, i as int);
            }
        },
        None => {
            entries.push((key.to_owned(), value));
            proof {
                let e = entries@;
                let n = old_entries.len() as int;
                assert forall|j: int| 0 <= j < n implies (#[trigger] e[j]).0@ != key@ by {
                    assert(e[j] == old_entries[j]);
                }
                assert(is_first_key(e, key@, n));
                lemma_first_key_unique(e, key@, n);
            }
        },
    }
}

impl Json {
    /// `self[key]` when `self` is an object that has the member.
    pub fn get(&self, key: &str) -> (res: Option<&Json>)
        ensures
            match res {
                Some(v) => member(*self, key@) == Some(*v),
                None => member(*self, key@) is None,
            },
    {
        match self {
            Json::Object(entries) => match find_field(entries, key) {
                Some(i) => Some(&entries[i].1),
                None => None,
            },
            _ => None,
        }
    }

    /// `self[i]` when `self` is an array that long.
    pub fn get_index(&self, i: usize) -> (res: Option<&Json>)
        ensures
            match res {
                Some(v) => element(*self, i as int) == Some(*v),
                None => element(*self, i as int) is None,
            },
    {
        match self {
            Json::Array(items) => if i < items.len() {
                Some(&items[i])
            } else {
                None
            },
            _ => None,
        }
    }
}

} // verus!
