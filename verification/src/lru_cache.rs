//! The `lru` crate's cache, as the bounded store of per-actor histories.

use lru::LruCache;
use std::num::NonZeroUsize;
use vstd::prelude::*;

use crate::keyed::key_index;
use crate::tracker::Entry;

verus! {

/// `lru::LruCache`, declared so that a tracker can hold one.
#[verifier::external_type_specification]
#[verifier::external_body]
#[verifier::reject_recursive_types(K)]
#[verifier::reject_recursive_types(V)]
#[verifier::reject_recursive_types(S)]
pub struct ExLruCache<K, V, S>(LruCache<K, V, S>);

/// The hasher that an `lru::LruCache` uses by default, carried opaquely.
#[verifier::external_type_specification]
#[verifier::external_body]
pub struct ExDefaultHasher(lru::DefaultHasher);

/// What a cache of actor histories holds: its key/value pairs, from the least
/// recently used to the most recently used.
pub uninterp spec fn lru_records(cache: LruCache<String, Vec<Entry>>) -> Seq<(String, Vec<Entry>)>;

/// The capacity the cache was made with.
pub uninterp spec fn lru_capacity(cache: LruCache<String, Vec<Entry>>) -> nat;

/// `LruCache::new`: an empty cache that holds at most `cap` entries
/// (`NonZeroUsize::new(cap).unwrap()` panics on zero, hence the requirement).
#[verifier::external_body]
pub(crate) fn lru_new(cap: usize) -> (cache: LruCache<String, Vec<Entry>>)
    requires
        cap > 0,
    ensures
        lru_records(cache) == Seq::<(String, Vec<Entry>)>::empty(),
        lru_capacity(cache) == cap,
{
    LruCache::new(NonZeroUsize::new(cap).unwrap())
}

/// `LruCache::pop`: removes the entry of `key`, if there is one, and hands its
/// value back; the order of the other entries and the capacity are kept.
#[verifier::external_body]
pub(crate) fn lru_pop(cache: &mut LruCache<String, Vec<Entry>>, key: &String) -> (value: Option<
    Vec<Entry>,
>)
    ensures
        lru_capacity(*final(cache)) == lru_capacity(*old(cache)),
        key_index(lru_records(*old(cache)), key@) >= 0 ==> {
            let i = key_index(lru_records(*old(cache)), key@);
            &&& value == Some(lru_records(*old(cache))[i].1)
            &&& lru_records(*final(cache)) == lru_records(*old(cache)).remove(i)
        },
        key_index(lru_records(*old(cache)), key@) < 0 ==> {
            &&& value is None
            &&& lru_records(*final(cache)) == lru_records(*old(cache))
        },
{
    cache.pop(key)
}

/// `LruCache::push` of a key that the cache does not hold: the new entry
/// becomes the most recently used; when the cache is full, its least recently
/// used entry is removed first and handed back.
#[verifier::external_body]
pub(crate) fn lru_push(cache: &mut LruCache<String, Vec<Entry>>, key: String, value: Vec<Entry>) -> (evicted: Option<(String, Vec<Entry>)>)
    requires
        key_index(lru_records(*old(cache)), key@) < 0,
    ensures
        lru_capacity(*final(cache)) == lru_capacity(*old(cache)),
        lru_records(*old(cache)).len() == lru_capacity(*old(cache)) ==> {
            &&& evicted == Some(lru_records(*old(cache))[0])
            &&& lru_records(*final(cache)) == lru_records(*old(cache)).drop_first().push((key, value))
        },
        lru_records(*old(cache)).len() != lru_capacity(*old(cache)) ==> {
            &&& evicted is None
            &&& lru_records(*final(cache)) == lru_records(*old(cache)).push((key, value))
        },
{
    cache.push(key, value)
}

/// `LruCache::peek`: the value of `key`, if the cache holds it, without
/// changing which entry is least recently used.
#[verifier::external_body]
pub(crate) fn lru_peek<'a>(cache: &'a LruCache<String, Vec<Entry>>, key: &String) -> (value: Option<&'a Vec<Entry>>)
    ensures
        key_index(lru_records(*cache), key@) >= 0 ==> value == Some(
            &lru_records(*cache)[key_index(lru_records(*cache), key@)].1,
        ),
        key_index(lru_records(*cache), key@) < 0 ==> value is None,
{
    cache.peek(key)
}

} // verus!
