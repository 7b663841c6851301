//! The recipe index: a `hashbrown::HashMap` and what is known of it.

use crate::recipe::Recipe;
use std::sync::Arc;
use vstd::prelude::*;

verus! {

/// The map from identifier values to shared recipes. Its allocator parameter is
/// bound by a trait that the crate keeps private, so the map is kept whole
/// behind this type.
#[verifier::external_body]
pub struct RecipeIndex {
    map: hashbrown::HashMap<u128, Arc<Recipe>>,
}

/// What an index holds: the recipe stored under each key.
pub uninterp spec fn index_entries(index: RecipeIndex) -> Map<u128, Recipe>;

/// `hashbrown::HashMap::new`: an empty map.
#[verifier::external_body]
pub(crate) fn index_new() -> (index: RecipeIndex)
    ensures
        index_entries(index) =~= Map::empty(),
{
    RecipeIndex { map: hashbrown::HashMap::new() }
}

/// `hashbrown::HashMap::get`: a handle on the recipe under `key`, if there is
/// one. The handle shares the stored recipe.
#[verifier::external_body]
pub(crate) fn index_get(index: &RecipeIndex, key: u128) -> (recipe: Option<Arc<Recipe>>)
    ensures
        match recipe {
            Some(found) => index_entries(*index).contains_key(key) && *found == index_entries(
                *index,
            )[key],
            None => !index_entries(*index).contains_key(key),
        },
{
    index.map.get(&key).cloned()
}

/// `hashbrown::HashMap::contains_key`: whether anything is stored under `key`.
#[verifier::external_body]
pub(crate) fn index_contains(index: &RecipeIndex, key: u128) -> (found: bool)
    ensures
        found == index_entries(*index).contains_key(key),
{
    index.map.contains_key(&key)
}

/// `hashbrown::HashMap::insert`: stores `recipe` under `key`, in place of what
/// was there.
#[verifier::external_body]
pub(crate) fn index_insert(index: &mut RecipeIndex, key: u128, recipe: Arc<Recipe>)
    ensures
        index_entries(*final(index)) == index_entries(*old(index)).insert(key, *recipe),
{
    index.map.insert(key, recipe);
}

/// `hashbrown::HashMap::remove`: drops what is stored under `key`, if anything.
#[verifier::external_body]
pub(crate) fn index_remove(index: &mut RecipeIndex, key: u128)
    ensures
        index_entries(*final(index)) == index_entries(*old(index)).remove(key),
{
    index.map.remove(&key);
}

/// `hashbrown::HashMap::len`: the number of keys.
#[verifier::external_body]
pub(crate) fn index_len(index: &RecipeIndex) -> (n: usize)
    ensures
        n == index_entries(*index).len(),
{
    index.map.len()
}

/// `hashbrown::HashMap::keys`: every key once, in the order the map walks
/// them, which is not specified.
#[verifier::external_body]
pub(crate) fn index_keys(index: &RecipeIndex) -> (keys: Vec<u128>)
    ensures
        keys@.no_duplicates(),
        keys@.to_set() == index_entries(*index).dom(),
{
    index.map.keys().copied().collect()
}

} // verus!
