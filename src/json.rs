//! An untyped JSON tree and the one-segment navigation step over it.
use vstd::prelude::*;

verus! {

/// A JSON value as received from the remote service.
///
/// Numbers keep their textual form: nothing here computes with them.
/// A mapping keeps its entries in order; a key is looked up by its first entry.
#[derive(Debug)]
pub enum Json {
    Null,
    Bool(bool),
    Number(String),
    Str(String),
    Array(Vec<Json>),
    Object(Vec<(String, Json)>),
}

/// The value stored under `key` among `entries`, taking the first entry with that key.
pub open spec fn lookup(entries: Seq<(String, Json)>, key: Seq<char>) -> Option<Json>
    decreases entries.len(),
{
    if entries.len() == 0 {
        None
    } else if entries[0].0@ == key {
        Some(entries[0].1)
    } else {
        lookup(entries.drop_first(), key)
    }
}

/// The value under `key` in a mapping, if there is one.
pub fn lookup_key<'a>(entries: &'a Vec<(String, Json)>, key: &String) -> (r: Option<&'a Json>)
    ensures
        match r {
            Some(v) => lookup(entries@, key@) == Some(*v),
            None => lookup(entries@, key@) is None,
        },
{
    let mut j: usize = 0;
    assert(entries@.skip(0) =~= entries@);
    while j < entries.len()
        invariant
            j <= entries@.len(),
            lookup(entries@, key@) == lookup(entries@.skip(j as int), key@),
        decreases entries@.len() - j,
    {
        assert(entries@.skip(j as int).drop_first() =~= entries@.skip(j + 1));
        if entries[j].0.eq(key) {
            return Some(&entries[j].1);
        }
        j = j + 1;
    }
    None
}

} // verus!
