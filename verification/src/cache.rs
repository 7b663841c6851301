//! The bounded image cache: an `lru::LruCache` and what is known of it.

use crate::image::Image;
use std::sync::Arc;
use vstd::prelude::*;

verus! {

/// `lru::LruCache`, taken as it is: nothing is known of a cache but what the
/// functions below say.
#[verifier::external_type_specification]
#[verifier::external_body]
#[verifier::reject_recursive_types(K)]
#[verifier::reject_recursive_types(V)]
#[verifier::reject_recursive_types(S)]
pub struct ExLruCache<K, V, S>(lru::LruCache<K, V, S>);

/// `lru::DefaultHasher`, the hasher that a cache is made with by default.
#[verifier::external_type_specification]
#[verifier::external_body]
pub struct ExLruHasher(lru::DefaultHasher);

/// What a cache holds: its entries from the most recently used to the least
/// recently used.
pub uninterp spec fn cache_entries(cache: lru::LruCache<u128, Arc<Image>>) -> Seq<(u128, Image)>;

/// The capacity that a cache was made with.
pub uninterp spec fn cache_limit(cache: lru::LruCache<u128, Arc<Image>>) -> nat;

/// Whether no two entries stand under the same key.
pub open spec fn distinct_keys(entries: Seq<(u128, Image)>) -> bool {
    forall|i: int, j: int| 0 <= i < j < entries.len() ==> entries[i].0 != entries[j].0
}

/// The position of the first entry under `key`, if there is one.
pub open spec fn find(entries: Seq<(u128, Image)>, key: u128) -> Option<int>
    decreases entries.len(),
{
    if entries.len() == 0 {
        None
    } else if entries[0].0 == key {
        Some(0)
    } else {
        match find(entries.drop_first(), key) {
            Some(i) => Some(i + 1),
            None => None,
        }
    }
}

/// The entries after a look-up of `key`: an entry that was found moves to the
/// front, nothing else changes.
pub open spec fn touched(entries: Seq<(u128, Image)>, key: u128) -> Seq<(u128, Image)> {
    match find(entries, key) {
        Some(i) => seq![entries[i]] + entries.remove(i),
        None => entries,
    }
}

/// The entries after `image` was put under `key` into a cache of capacity
/// `limit`: the new entry stands at the front; it replaces the entry under the
/// same key if there was one, else, where the cache was full, the entry at the
/// back. A cache of capacity zero stays empty.
pub open spec fn stored(entries: Seq<(u128, Image)>, limit: nat, key: u128, image: Image) -> Seq<
    (u128, Image),
> {
    match find(entries, key) {
        Some(i) => seq![(key, image)] + entries.remove(i),
        None => if limit == 0 {
            entries
        } else if entries.len() == limit {
            seq![(key, image)] + entries.drop_last()
        } else {
            seq![(key, image)] + entries
        },
    }
}

/// `lru::LruCache::new`: an empty cache that holds at most `limit` entries.
#[verifier::external_body]
pub(crate) fn cache_new(limit: usize) -> (cache: lru::LruCache<u128, Arc<Image>>)
    ensures
        cache_entries(cache) == Seq::<(u128, Image)>::empty(),
        cache_limit(cache) == limit,
{
    lru::LruCache::new(limit)
}

/// `lru::LruCache::get`: hands out the image under `key`, if there is one, and
/// marks that entry as the most recently used. The handle returned shares the
/// cached image.
#[verifier::external_body]
pub(crate) fn cache_get(cache: &mut lru::LruCache<u128, Arc<Image>>, key: u128) -> (image: Option<
    Arc<Image>,
>)
    ensures
        cache_entries(*final(cache)) == touched(cache_entries(*old(cache)), key),
        cache_limit(*final(cache)) == cache_limit(*old(cache)),
        match find(cache_entries(*old(cache)), key) {
            Some(i) => image matches Some(found) && *found == cache_entries(*old(cache))[i].1,
            None => image is None,
        },
{
    cache.get(&key).cloned()
}

/// `lru::LruCache::put`: stores `image` under `key` as the most recently used
/// entry, in place of an entry under the same key or, in a full cache, of the
/// least recently used one.
#[verifier::external_body]
pub(crate) fn cache_put(cache: &mut lru::LruCache<u128, Arc<Image>>, key: u128, image: Arc<Image>)
    ensures
        cache_entries(*final(cache)) == stored(
            cache_entries(*old(cache)),
            cache_limit(*old(cache)),
            key,
            *image,
        ),
        cache_limit(*final(cache)) == cache_limit(*old(cache)),
{
    cache.put(key, image);
}

/// What a look-up of `key` finds: the first entry under `key`, which stands
/// before every other entry under it, or that there is none.
pub proof fn lemma_find(entries: Seq<(u128, Image)>, key: u128)
    ensures
        match find(entries, key) {
            Some(i) => 0 <= i < entries.len() && entries[i].0 == key && forall|j: int|
                0 <= j < i ==> entries[j].0 != key,
            None => forall|j: int| 0 <= j < entries.len() ==> entries[j].0 != key,
        },
    decreases entries.len(),
{
    if entries.len() > 0 && entries[0].0 != key {
        let rest = entries.drop_first();
        lemma_find(rest, key);
        match find(rest, key) {
            Some(i) => {
                assert(entries[i + 1] == rest[i]);
                assert forall|j: int| 0 <= j < i + 1 implies entries[j].0 != key by {
                    if j > 0 {
                        assert(entries[j] == rest[j - 1]);
                    }
                }
            },
            None => {
                assert forall|j: int| 0 <= j < entries.len() implies entries[j].0 != key by {
                    if j > 0 {
                        assert(entries[j] == rest[j - 1]);
                    }
                }
            },
        }
    }
}

/// A look-up keeps the number of entries, and keeps their keys distinct.
pub proof fn lemma_touched_keeps(entries: Seq<(u128, Image)>, key: u128)
    requires
        distinct_keys(entries),
    ensures
        touched(entries, key).len() == entries.len(),
        distinct_keys(touched(entries, key)),
{
    lemma_find(entries, key);
    match find(entries, key) {
        Some(i) => {
            lemma_front(entries, i, entries[i]);
        },
        None => {},
    }
}

/// Putting an image into a cache that is within its capacity and has distinct
/// keys leaves it so.
pub proof fn lemma_stored_keeps(entries: Seq<(u128, Image)>, limit: nat, key: u128, image: Image)
    requires
        distinct_keys(entries),
        entries.len() <= limit,
    ensures
        stored(entries, limit, key, image).len() <= limit,
        distinct_keys(stored(entries, limit, key, image)),
{
    lemma_find(entries, key);
    match find(entries, key) {
        Some(i) => {
            lemma_front(entries, i, (key, image));
        },
        None => {
            if limit != 0 {
                let kept = if entries.len() == limit {
                    entries.drop_last()
                } else {
                    entries
                };
                let next = seq![(key, image)] + kept;
                assert forall|a: int, b: int| 0 <= a < b < next.len() implies next[a].0
                    != next[b].0 by {
                    assert(next[b] == entries[b - 1]);
                    if a > 0 {
                        assert(next[a] == entries[a - 1]);
                    }
                }
            }
        },
    }
}

/// Taking the entry at `i` out and putting an entry with its key at the front
/// keeps the number of entries and keeps the keys distinct.
proof fn lemma_front(entries: Seq<(u128, Image)>, i: int, entry: (u128, Image))
    requires
        distinct_keys(entries),
        0 <= i < entries.len(),
        entry.0 == entries[i].0,
    ensures
        (seq![entry] + entries.remove(i)).len() == entries.len(),
        distinct_keys(seq![entry] + entries.remove(i)),
{
    let rest = entries.remove(i);
    let next = seq![entry] + rest;
    assert forall|a: int, b: int| 0 <= a < b < next.len() implies next[a].0 != next[b].0 by {
        let pb = if b - 1 < i { b - 1 } else { b };
        assert(next[b] == rest[b - 1] && rest[b - 1] == entries[pb]);
        if a > 0 {
            let pa = if a - 1 < i { a - 1 } else { a };
            assert(next[a] == rest[a - 1] && rest[a - 1] == entries[pa]);
        }
    }
}

} // verus!
