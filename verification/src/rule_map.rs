//! The hash map that stores the rules, keyed by tile code.
//!
//! The map itself is `bevy::platform::collections::HashMap`. The functions
//! whose name begins with `map_` are stated, not proved: each makes one call
//! on the map and says what the map's own method does, over
//! [`rule_entries`], the key-to-rule mapping that the map holds. The search
//! `contains_code`, which `map_retain` hands to the map as its predicate, is
//! proved.

use vstd::prelude::*;
use bevy::platform::collections::HashMap;
use bevy::platform::hash::FixedHasher;
use crate::rule::{default_rule, Rule};

verus! {

/// `bevy::platform::collections::HashMap`, carried as an opaque value.
#[verifier::external_type_specification]
#[verifier::external_body]
#[verifier::reject_recursive_types(K)]
#[verifier::reject_recursive_types(V)]
#[verifier::reject_recursive_types(S)]
pub struct ExHashMap<K, V, S>(HashMap<K, V, S>);

/// `bevy::platform::hash::FixedHasher`, the map's default hasher builder.
#[verifier::external_type_specification]
#[verifier::external_body]
pub struct ExFixedHasher(FixedHasher);

/// The entries a rule map holds: each key with the rule stored under it.
pub uninterp spec fn rule_entries(map: HashMap<u8, Rule>) -> Map<u8, Rule>;

/// The mapping without any entry.
pub open spec fn no_entries() -> Map<u8, Rule> {
    Map::empty()
}

/// What `get` finds under `key`.
pub open spec fn entry_at(entries: Map<u8, Rule>, key: u8) -> Option<Rule> {
    if entries.contains_key(key) {
        Some(entries[key])
    } else {
        None
    }
}

/// The entries whose key occurs in `keep`.
pub open spec fn entries_kept(entries: Map<u8, Rule>, keep: Seq<u8>) -> Map<u8, Rule> {
    entries.restrict(Set::new(|key: u8| keep.contains(key)))
}

/// The entries with a default rule added under `key` if it had none.
pub open spec fn entries_with_default(entries: Map<u8, Rule>, key: u8) -> Map<u8, Rule> {
    if entries.contains_key(key) {
        entries
    } else {
        entries.insert(key, default_rule())
    }
}

/// Whether `code` occurs in `codes`.
pub fn contains_code(codes: &Vec<u8>, code: u8) -> (found: bool)
    ensures
        found == codes@.contains(code),
{
    let mut i: usize = 0;
    while i < codes.len()
        invariant
            i <= codes.len(),
            forall|j: int| 0 <= j < i ==> codes@[j] != code,
        decreases codes.len() - i,
    {
        if codes[i] == code {
            return true;
        }
        i += 1;
    }
    false
}

/// `HashMap::default`: a map that holds no entry.
#[verifier::external_body]
pub(crate) fn map_new() -> (map: HashMap<u8, Rule>)
    ensures
        rule_entries(map) == no_entries(),
{
    HashMap::default()
}

/// `HashMap::get`: the rule stored under `key`, if there is one.
#[verifier::external_body]
pub(crate) fn map_get(map: &HashMap<u8, Rule>, key: u8) -> (found: Option<&Rule>)
    ensures
        match found {
            Some(rule) => entry_at(rule_entries(*map), key) == Some(*rule),
            None => entry_at(rule_entries(*map), key).is_none(),
        },
{
    map.get(&key)
}

/// `HashMap::get_mut`: a mutable reference to the rule stored under `key`, if
/// there is one. Whatever is written through it becomes the entry under
/// `key`; no other entry changes, and without such an entry the map stays as
/// it was.
#[verifier::external_body]
pub(crate) fn map_get_mut(map: &mut HashMap<u8, Rule>, key: u8) -> (found: Option<&mut Rule>)
    ensures
        match found {
            Some(rule) => entry_at(rule_entries(*old(map)), key) == Some(*rule)
                && rule_entries(*final(map)) == rule_entries(*old(map)).insert(key, *final(rule)),
            None => entry_at(rule_entries(*old(map)), key).is_none()
                && rule_entries(*final(map)) == rule_entries(*old(map)),
        },
{
    map.get_mut(&key)
}

/// `HashMap::insert`: stores `rule` under `key` and hands back the rule that
/// was there before, if any.
#[verifier::external_body]
pub(crate) fn map_insert(map: &mut HashMap<u8, Rule>, key: u8, rule: Rule) -> (previous: Option<Rule>)
    ensures
        rule_entries(*final(map)) == rule_entries(*old(map)).insert(key, rule),
        previous == entry_at(rule_entries(*old(map)), key),
{
    map.insert(key, rule)
}

/// `HashMap::retain`, with the predicate "the key occurs in `keep`": every
/// entry under another key is removed, the others stay as they are.
#[verifier::external_body]
pub(crate) fn map_retain(map: &mut HashMap<u8, Rule>, keep: &Vec<u8>)
    ensures
        rule_entries(*final(map)) == entries_kept(rule_entries(*old(map)), keep@),
{
    map.retain(|key, _| contains_code(keep, *key));
}

/// `HashMap::entry` followed by `Entry::or_default`: a key without an entry
/// gets `Rule::default()`, an existing entry is left untouched.
#[verifier::external_body]
pub(crate) fn map_or_default(map: &mut HashMap<u8, Rule>, key: u8)
    ensures
        rule_entries(*final(map)) == entries_with_default(rule_entries(*old(map)), key),
{
    map.entry(key).or_default();
}

} // verus!
