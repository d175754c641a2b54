//! The registry, as far as its hives could be opened.

use crate::text::{self, same_ignoring_case};
use vstd::prelude::*;

verus! {

/// A value of a key.
#[derive(Debug)]
pub struct RegistryValue {
    pub name: Option<String>,
    pub data: Option<Vec<u8>>,
    /// The data as the text that the value's kind makes of it.
    pub decoded: Option<String>,
}

/// A key, with the keys and values below it as far as they can be read.
#[derive(Debug)]
pub struct RegistryKey {
    pub name: Option<String>,
    pub subkeys: Vec<RegistryKey>,
    pub values: Vec<RegistryValue>,
}

/// A hive that could be opened. Its root may be unreadable.
#[derive(Debug)]
pub struct Hive {
    pub name: Option<String>,
    pub root: Option<RegistryKey>,
}

/// Whether a key has a name, however it is written.
pub open spec fn is_called(key: RegistryKey, name: Seq<char>) -> bool {
    key.name is Some && text::lower(key.name->0@) == text::lower(name)
}

/// The first key of a name from a place on.
pub open spec fn key_from(keys: Seq<RegistryKey>, name: Seq<char>, from: int) -> Option<RegistryKey>
    decreases keys.len() - from,
{
    if from < 0 || from >= keys.len() {
        None
    } else if is_called(keys[from], name) {
        Some(keys[from])
    } else {
        key_from(keys, name, from + 1)
    }
}

/// The key below a key that has a name, however it is written.
pub fn child<'a>(key: &'a RegistryKey, name: &str) -> (found: Option<&'a RegistryKey>)
    ensures
        match found {
            Some(found) => key_from(key.subkeys@, name@, 0) == Some(*found),
            None => key_from(key.subkeys@, name@, 0) is None,
        },
{
    let mut i: usize = 0;
    while i < key.subkeys.len()
        invariant
            i <= key.subkeys@.len(),
            key_from(key.subkeys@, name@, 0) == key_from(key.subkeys@, name@, i as int),
        decreases key.subkeys@.len() - i,
    {
        if let Some(called) = &key.subkeys[i].name {
            if same_ignoring_case(called, name) {
                return Some(&key.subkeys[i]);
            }
        }
        i = i + 1;
    }
    None
}

/// The key that a path of names leads to, behind the first names of the path.
pub open spec fn descended(start: RegistryKey, path: Seq<&str>, count: int) -> Option<RegistryKey>
    decreases count,
{
    if count <= 0 {
        Some(start)
    } else {
        match descended(start, path, count - 1) {
            Some(key) => key_from(key.subkeys@, path[count - 1]@, 0),
            None => None,
        }
    }
}

proof fn lemma_lost(start: RegistryKey, path: Seq<&str>, count: int, total: int)
    requires
        descended(start, path, count) is None,
        count <= total,
    ensures
        descended(start, path, total) is None,
    decreases total - count,
{
    if count < total {
        lemma_lost(start, path, count + 1, total);
    }
}

/// Follow a path of subkey names from a starting key.
#[verifier::loop_isolation(false)]
pub fn descend<'a>(start: &'a RegistryKey, path: &[&str]) -> (found: Option<&'a RegistryKey>)
    ensures
        match found {
            Some(found) => descended(*start, path@, path@.len() as int) == Some(*found),
            None => descended(*start, path@, path@.len() as int) is None,
        },
{
    let mut current: &'a RegistryKey = start;
    for i in 0..path.len()
        invariant
            descended(*start, path@, i as int) == Some(*current),
    {
        match child(current, path[i]) {
            Some(key) => {
                current = key;
            },
            None => {
                proof {
                    lemma_lost(*start, path@, i + 1, path@.len() as int);
                }
                return None;
            },
        }
    }
    Some(current)
}

} // verus!
