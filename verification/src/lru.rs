//! The cache that an accumulator keeps its names in. The cache itself is not verified: what
//! this file says of it is taken from its source and believed.

use vstd::prelude::*;
use lru_cache::LruCache;
use std::hash::BuildHasher;
use std::hash::Hash;
use crate::response::{Name, NameView, Response, ResponseView};

verus! {

/// `lru_cache::LruCache`, a map that holds a bounded number of keys and drops the one that was
/// used least recently. Nothing is known of a cache but what the functions below say of it.
#[verifier::external_type_specification]
#[verifier::external_body]
#[verifier::reject_recursive_types(K)]
#[verifier::reject_recursive_types(V)]
#[verifier::reject_recursive_types(S)]
pub struct ExLruCache<K: Eq + Hash, V, S: BuildHasher>(LruCache<K, V, S>);

/// The cache in which an accumulator keeps the responses that it has collected.
pub type Storage = LruCache<Name, Vec<Response>>;

/// A name together with the responses collected for it.
pub type Held = (NameView, Seq<ResponseView>);

/// What a cache holds: its names with their responses, the least recently used name first.
pub uninterp spec fn cache_entries(cache: Storage) -> Seq<Held>;

/// The number of names that a cache was made to hold.
pub uninterp spec fn cache_limit(cache: Storage) -> nat;

/// Whether `name` is among the held names.
pub open spec fn holds(entries: Seq<Held>, name: NameView) -> bool {
    exists|i: int| 0 <= i < entries.len() && (#[trigger] entries[i]).0 == name
}

/// A place at which `name` stands among the held names, where it is held.
pub open spec fn position(entries: Seq<Held>, name: NameView) -> int {
    choose|i: int| 0 <= i < entries.len() && (#[trigger] entries[i]).0 == name
}

/// The responses collected for `name`; none where it is not held.
pub open spec fn responses_of(entries: Seq<Held>, name: NameView) -> Seq<ResponseView> {
    if holds(entries, name) {
        entries[position(entries, name)].1
    } else {
        Seq::empty()
    }
}

/// The held names after `name` has left.
pub open spec fn without(entries: Seq<Held>, name: NameView) -> Seq<Held> {
    if holds(entries, name) {
        entries.remove(position(entries, name))
    } else {
        entries
    }
}

/// The held names after `name` was looked up: it becomes the most recently used.
pub open spec fn refreshed(entries: Seq<Held>, name: NameView) -> Seq<Held> {
    if holds(entries, name) {
        without(entries, name).push(entries[position(entries, name)])
    } else {
        entries
    }
}

/// The held names after `responses` were stored under `name` in a cache that holds at most
/// `limit` names: the name becomes the most recently used, and the least recently used name
/// leaves where there are now too many.
pub open spec fn stored(
    entries: Seq<Held>,
    limit: nat,
    name: NameView,
    responses: Seq<ResponseView>,
) -> Seq<Held> {
    let grown = without(entries, name).push((name, responses));
    if grown.len() > limit {
        grown.drop_first()
    } else {
        grown
    }
}

/// Calls `LruCache::new`: the cache starts empty and holds at most `capacity` names.
#[verifier::external_body]
pub(crate) fn cache_new(capacity: usize) -> (cache: Storage)
    ensures
        cache_entries(cache) == Seq::<Held>::empty(),
        cache_limit(cache) == capacity,
{
    LruCache::new(capacity)
}

/// Calls `LruCache::contains_key`: says whether the name is in the cache, and, as that method
/// looks the name up, makes a name that is there the most recently used.
#[verifier::external_body]
pub(crate) fn cache_contains(cache: &mut Storage, name: &Name) -> (found: bool)
    ensures
        found == holds(cache_entries(*old(cache)), name.deep_view()),
        cache_entries(*final(cache)) == refreshed(cache_entries(*old(cache)), name.deep_view()),
        cache_limit(*final(cache)) == cache_limit(*old(cache)),
{
    cache.contains_key(name)
}

/// Calls `LruCache::remove`: takes the name out of the cache and hands back its responses, and
/// leaves the other names in their order.
#[verifier::external_body]
pub(crate) fn cache_remove(cache: &mut Storage, name: &Name) -> (removed: Option<Vec<Response>>)
    ensures
        removed.is_some() == holds(cache_entries(*old(cache)), name.deep_view()),
        removed.is_some() ==> removed.unwrap().deep_view() == responses_of(
            cache_entries(*old(cache)),
            name.deep_view(),
        ),
        cache_entries(*final(cache)) == without(cache_entries(*old(cache)), name.deep_view()),
        cache_limit(*final(cache)) == cache_limit(*old(cache)),
{
    cache.remove(name)
}

/// Calls `LruCache::insert`: stores the responses under the name, which becomes the most
/// recently used, hands back what the name held before, and drops the least recently used name
/// where the cache now holds more names than it was made for.
#[verifier::external_body]
pub(crate) fn cache_insert(cache: &mut Storage, name: Name, responses: Vec<Response>) -> (replaced:
    Option<Vec<Response>>)
    ensures
        replaced.is_some() == holds(cache_entries(*old(cache)), name.deep_view()),
        replaced.is_some() ==> replaced.unwrap().deep_view() == responses_of(
            cache_entries(*old(cache)),
            name.deep_view(),
        ),
        cache_entries(*final(cache)) == stored(
            cache_entries(*old(cache)),
            cache_limit(*old(cache)),
            name.deep_view(),
            responses.deep_view(),
        ),
        cache_limit(*final(cache)) == cache_limit(*old(cache)),
{
    cache.insert(name, responses)
}

} // verus!
