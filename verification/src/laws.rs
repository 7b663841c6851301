//! What holds of the store across its operations.

use crate::cache::{find, lemma_find, stored};
use crate::db::{admitted, holds, is_ranking, is_save_plan, lists, loaded, DatabaseView};
use crate::id::{lemma_text_reads_back, uuid_parse, RecipeId};
use crate::image::Image;
use crate::layout::{image_file_name, FoundRecord, RecordFile, SaveJob};
use crate::recipe::Recipe;
use crate::search::{fuzzy_score, relevance};
use std::sync::Arc;
use vstd::prelude::*;

verus! {

/// A recipe that was just stored is what a look-up of its identifier gives,
/// equal to it in every field.
pub proof fn lemma_insert_then_get(db: DatabaseView, recipe: Recipe)
    ensures
        db.insert(recipe).get(recipe.id) == Some(recipe),
        db.insert(recipe).ids().contains(recipe.id),
{
}

/// Storing a recipe leaves every other identifier as it was.
pub proof fn lemma_insert_keeps_others(db: DatabaseView, recipe: Recipe, other: RecipeId)
    requires
        other != recipe.id,
    ensures
        db.insert(recipe).get(other) == db.get(other),
{
}

/// Storing the same recipe twice leaves the store as storing it once does.
pub proof fn lemma_insert_twice(db: DatabaseView, recipe: Recipe)
    ensures
        db.insert(recipe).insert(recipe) == db.insert(recipe),
{
    assert(db.items.insert(recipe.id.0, recipe).insert(recipe.id.0, recipe) =~= db.items.insert(
        recipe.id.0,
        recipe,
    ));
}

/// Updating a recipe that is stored is storing it; updating one that is not
/// stored changes nothing.
pub proof fn lemma_update(db: DatabaseView, recipe: Recipe)
    ensures
        db.get(recipe.id) is Some ==> db.update(recipe) == db.insert(recipe),
        db.get(recipe.id) is None ==> db.update(recipe) == db,
{
}

/// After a removal the identifier is gone: a look-up finds nothing, and the
/// identifier is no longer listed.
pub proof fn lemma_remove_final(db: DatabaseView, id: RecipeId)
    ensures
        db.remove(id).get(id) is None,
        !db.remove(id).ids().contains(id),
{
}

/// A removal leaves every other identifier as it was.
pub proof fn lemma_remove_keeps_others(db: DatabaseView, id: RecipeId, other: RecipeId)
    requires
        other != id,
    ensures
        db.remove(id).get(other) == db.get(other),
{
}

/// A removal does not reach into the image cache: an image cached for the
/// removed recipe is still served.
pub proof fn lemma_remove_keeps_image(db: DatabaseView, id: RecipeId, of: RecipeId)
    ensures
        db.remove(id).cached(of) == db.cached(of),
{
}

/// Storing, updating and removing recipes, looking images up and caching
/// them all keep a store well formed.
pub proof fn lemma_operations_keep_wf(db: DatabaseView, recipe: Recipe, id: RecipeId, image: Image)
    requires
        db.wf(),
    ensures
        db.insert(recipe).wf(),
        db.update(recipe).wf(),
        db.remove(id).wf(),
        db.touch_image(id).wf(),
        db.cache_image(id, image).wf(),
{
    crate::cache::lemma_touched_keeps(db.images, id.0);
    crate::cache::lemma_stored_keeps(db.images, db.capacity, id.0, image);
}

/// An image that was just cached is what the next look-up of its recipe
/// finds.
pub proof fn lemma_cached_image_found(db: DatabaseView, id: RecipeId, image: Image)
    requires
        db.wf(),
    ensures
        db.cache_image(id, image).cached(id) == Some(image),
{
    let after = stored(db.images, db.capacity, id.0, image);
    lemma_find(db.images, id.0);
    assert(after[0] == (id.0, image));
    lemma_find(after, id.0);
}

/// A look-up of an image serves what is cached and does not change which
/// images are cached for which recipe.
pub proof fn lemma_lookup_keeps_images(db: DatabaseView, id: RecipeId, of: RecipeId)
    requires
        db.wf(),
    ensures
        db.touch_image(id).cached(of) == db.cached(of),
{
    let before = db.images;
    let after = db.touch_image(id).images;
    lemma_find(before, id.0);
    lemma_find(before, of.0);
    lemma_find(after, of.0);
    crate::cache::lemma_touched_keeps(before, id.0);
    match find(before, id.0) {
        Some(i) => {
            assert(after[0] == before[i]);
            assert forall|a: int| 1 <= a < after.len() implies after[a] == before[if a - 1 < i {
                a - 1
            } else {
                a
            }] by {}
            match find(before, of.0) {
                Some(p) => {
                    let q = if p == i {
                        0
                    } else if p < i {
                        p + 1
                    } else {
                        p
                    };
                    assert(after[q] == before[p]);
                    match find(after, of.0) {
                        Some(r) => {
                            if r != q {
                                let (lo, hi) = if r < q {
                                    (r, q)
                                } else {
                                    (q, r)
                                };
                                assert(after[lo].0 != after[hi].0);
                            }
                        },
                        None => {},
                    }
                },
                None => {
                    match find(after, of.0) {
                        Some(r) => {
                            if r == 0 {
                                assert(before[i].0 == of.0);
                            } else {
                                let b = if r - 1 < i {
                                    r - 1
                                } else {
                                    r
                                };
                                assert(before[b].0 == of.0);
                            }
                        },
                        None => {},
                    }
                },
            }
        },
        None => {},
    }
}

/// Two recipes never share a directory: files in a directory of one name
/// belong to one identifier.
pub proof fn lemma_directories_distinct(
    a: RecordFile,
    id_a: RecipeId,
    name_a: Seq<char>,
    b: RecordFile,
    id_b: RecipeId,
    name_b: Seq<char>,
)
    requires
        a.is_file_of(id_a, name_a),
        b.is_file_of(id_b, name_b),
        a.dir_name@ == b.dir_name@,
    ensures
        id_a == id_b,
{
    lemma_text_reads_back(id_a.0);
    lemma_text_reads_back(id_b.0);
}

/// A ranking leaves no recipe out and takes none twice: it has as many
/// entries as the store has recipes.
pub proof fn lemma_ranking_is_complete(results: Seq<(isize, Arc<Recipe>)>, db: DatabaseView)
    requires
        db.wf(),
        is_ranking(results, db.items),
    ensures
        results.len() == db.items.len(),
{
    let keys = choose|keys: Seq<u128>| lists(keys, db.items) && holds(results, keys, db.items);
    keys.unique_seq_to_set();
}

/// Whether every entry of `results` carries the relevance of its recipe to
/// `term` as its score.
pub open spec fn scored_by(results: Seq<(isize, Arc<Recipe>)>, term: Seq<char>) -> bool {
    forall|i: int|
        0 <= i < results.len() ==> (#[trigger] results[i]).0 == relevance(term, *results[i].1)
}

/// The best match comes last: a recipe that is more relevant to the term than
/// every other stored recipe stands at the high end of the ranking, with a
/// score above every other score.
pub proof fn lemma_best_match_is_last(
    results: Seq<(isize, Arc<Recipe>)>,
    db: DatabaseView,
    term: Seq<char>,
    best: RecipeId,
)
    requires
        is_ranking(results, db.items),
        scored_by(results, term),
        db.items.contains_key(best.0),
        forall|key: u128|
            db.items.contains_key(key) && key != best.0 ==> relevance(term, #[trigger] db.items[key])
                < relevance(term, db.items[best.0]),
    ensures
        results.len() > 0,
        *results.last().1 == db.items[best.0],
        results.last().0 == relevance(term, db.items[best.0]),
        forall|i: int| 0 <= i < results.len() - 1 ==> (#[trigger] results[i]).0 < results.last().0,
{
    let keys = choose|keys: Seq<u128>| lists(keys, db.items) && holds(results, keys, db.items);
    assert(keys.to_set().contains(best.0));
    let at = choose|at: int| 0 <= at < keys.len() && keys[at] == best.0;
    let last = results.len() - 1;
    assert(*results[at].1 == db.items[keys[at]]);
    assert forall|i: int| 0 <= i < results.len() && i != at implies (#[trigger] results[i]).0
        < results[at].0 by {
        assert(keys[i] != keys[at]);
        assert(keys.to_set().contains(keys[i]));
        assert(*results[i].1 == db.items[keys[i]]);
    }
    if at != last {
        assert(results[last].0 < results[at].0);
        assert(results[at].0 <= results[last].0);
    }
}

/// A term that matches no stored recipe gives every recipe the lowest score.
pub proof fn lemma_nothing_matches(
    results: Seq<(isize, Arc<Recipe>)>,
    db: DatabaseView,
    term: Seq<char>,
)
    requires
        is_ranking(results, db.items),
        scored_by(results, term),
        forall|key: u128|
            db.items.contains_key(key) ==> fuzzy_score(term, (#[trigger] db.items[key]).name@)
                is None && fuzzy_score(term, db.items[key].body@) is None,
    ensures
        forall|i: int| 0 <= i < results.len() ==> (#[trigger] results[i]).0 == isize::MIN,
{
    let keys = choose|keys: Seq<u128>| lists(keys, db.items) && holds(results, keys, db.items);
    assert forall|i: int| 0 <= i < results.len() implies (#[trigger] results[i]).0
        == isize::MIN by {
        assert(keys.to_set().contains(keys[i]));
        assert(*results[i].1 == db.items[keys[i]]);
    }
}

/// A recipe that the term matches neither by name nor by body gets the
/// lowest score there is, and so stands before every recipe that matches.
pub proof fn lemma_no_match_sorts_first(term: Seq<char>, recipe: Recipe)
    requires
        fuzzy_score(term, recipe.name@) is None,
        fuzzy_score(term, recipe.body@) is None,
    ensures
        relevance(term, recipe) == isize::MIN,
        forall|other: Recipe| relevance(term, recipe) <= #[trigger] relevance(term, other),
{
}

/// The file that an image is written to is the file that it is read from
/// when it is not cached: both are named by the recipe's identifier alone.
pub proof fn lemma_image_file_agrees(written: RecordFile, read: RecordFile, id: RecipeId)
    requires
        written.is_file_of(id, image_file_name()),
        read.is_file_of(id, image_file_name()),
    ensures
        written.dir_name@ == read.dir_name@,
        written.file_name@ == read.file_name@,
{
}

/// Loading takes the entries in one after the other.
pub proof fn lemma_loaded_push(found: Seq<FoundRecord>, next: FoundRecord)
    ensures
        loaded(found.push(next)) == admitted(loaded(found), next.name@, next.recipe),
{
    assert(found.push(next).drop_last() =~= found);
}

/// An entry of the base directory whose name is no identifier, or in which no
/// record could be read, is as good as absent: the store that is loaded is
/// the one that the other entries give.
pub proof fn lemma_bad_entry_skipped(found: Seq<FoundRecord>, at: int)
    requires
        0 <= at < found.len(),
        uuid_parse(found[at].name@) is None || found[at].recipe is None,
    ensures
        loaded(found) == loaded(found.remove(at)),
    decreases found.len(),
{
    if at == found.len() - 1 {
        assert(found.remove(at) =~= found.drop_last());
    } else {
        lemma_bad_entry_skipped(found.drop_last(), at);
        assert(found.remove(at).drop_last() =~= found.drop_last().remove(at));
        assert(found.remove(at).last() == found.last());
    }
}

/// Whether `entry` is what the write of `job` left behind: an entry named as
/// the job's directory, holding the record that the job wrote.
pub open spec fn read_from(entry: FoundRecord, job: SaveJob) -> bool {
    &&& entry.name@ == job.file.dir_name@
    &&& entry.recipe matches Some(read) && *read == *job.recipe
}

/// Whether `found` is what a scan of the base directory finds after the
/// writes of `jobs` have all succeeded: every entry is what one of the jobs
/// left behind, and every job has left an entry. The entries come in whatever
/// order the directory is read in.
pub open spec fn reads_back(found: Seq<FoundRecord>, jobs: Seq<SaveJob>) -> bool {
    &&& forall|i: int| 0 <= i < found.len() ==> has_source(#[trigger] found[i], jobs)
    &&& forall|j: int| 0 <= j < jobs.len() ==> has_entry(#[trigger] jobs[j], found)
}

/// Whether `entry` is what one of `jobs` left behind.
pub open spec fn has_source(entry: FoundRecord, jobs: Seq<SaveJob>) -> bool {
    exists|j: int| 0 <= j < jobs.len() && read_from(entry, #[trigger] jobs[j])
}

/// Whether one of `found` is named as the directory of `job`.
pub open spec fn has_entry(job: SaveJob, found: Seq<FoundRecord>) -> bool {
    exists|i: int| 0 <= i < found.len() && (#[trigger] found[i]).name@ == job.file.dir_name@
}

/// Saving and loading give the store back: where every record of a save plan
/// is written and read back, in any order, loading builds the index that was
/// saved.
pub proof fn lemma_save_then_load(items: Map<u128, Recipe>, jobs: Seq<SaveJob>, found: Seq<FoundRecord>)
    requires
        is_save_plan(jobs, items),
        reads_back(found, jobs),
    ensures
        loaded(found) == items,
{
    lemma_reload(items, jobs, found, found.len() as int);
    assert(found.subrange(0, found.len() as int) =~= found);
    let keys = jobs.map_values(|job: SaveJob| job.id.0);
    assert forall|key: u128| items.dom().contains(key) implies seen(
        found,
        found.len() as int,
        key,
    ) by {
        assert(keys.to_set().contains(key));
        let j = choose|j: int| 0 <= j < keys.len() && keys[j] == key;
        assert(jobs[j].id.0 == key);
        assert(has_entry(jobs[j], found));
        let i = choose|i: int|
            0 <= i < found.len() && (#[trigger] found[i]).name@ == jobs[j].file.dir_name@;
        lemma_text_reads_back(key);
        assert(uuid_parse(found[i].name@) == Some(key));
    }
    assert forall|key: u128| seen(found, found.len() as int, key) implies items.dom().contains(
        key,
    ) by {
        let i = choose|i: int|
            0 <= i < found.len() && uuid_parse((#[trigger] found[i]).name@) == Some(key);
        assert(has_source(found[i], jobs));
        let j = choose|j: int| 0 <= j < jobs.len() && read_from(found[i], #[trigger] jobs[j]);
        lemma_text_reads_back(jobs[j].id.0);
        assert(keys[j] == key);
        assert(keys.to_set().contains(key));
    }
    assert(loaded(found) =~= items);
}

/// Whether one of the first `n` entries is named as the identifier `key`.
pub open spec fn seen(found: Seq<FoundRecord>, n: int, key: u128) -> bool {
    exists|i: int| 0 <= i < n && uuid_parse((#[trigger] found[i]).name@) == Some(key)
}

/// Loading the first `n` entries read back builds the part of the index that
/// those entries name.
proof fn lemma_reload(items: Map<u128, Recipe>, jobs: Seq<SaveJob>, found: Seq<FoundRecord>, n: int)
    requires
        is_save_plan(jobs, items),
        reads_back(found, jobs),
        0 <= n <= found.len(),
    ensures
        loaded(found.subrange(0, n)) == Map::new(
            |key: u128| seen(found, n, key),
            |key: u128| items[key],
        ),
    decreases n,
{
    let part = Map::new(|key: u128| seen(found, n, key), |key: u128| items[key]);
    if n == 0 {
        assert(loaded(found.subrange(0, n)) =~= part);
    } else {
        lemma_reload(items, jobs, found, n - 1);
        let upto = found.subrange(0, n);
        assert(upto.drop_last() =~= found.subrange(0, n - 1));
        assert(upto.last() == found[n - 1]);
        assert(has_source(found[n - 1], jobs));
        let j = choose|j: int| 0 <= j < jobs.len() && read_from(found[n - 1], #[trigger] jobs[j]);
        let job = jobs[j];
        lemma_text_reads_back(job.id.0);
        assert(uuid_parse(found[n - 1].name@) == Some(job.id.0));
        assert forall|key: u128| seen(found, n, key) <==> (seen(found, n - 1, key) || key
            == job.id.0) by {
            if seen(found, n, key) {
                let i = choose|i: int| 0 <= i < n && uuid_parse((#[trigger] found[i]).name@) == Some(key);
                if i < n - 1 {
                    assert(seen(found, n - 1, key));
                }
            }
            if seen(found, n - 1, key) {
                let i = choose|i: int|
                    0 <= i < n - 1 && uuid_parse((#[trigger] found[i]).name@) == Some(key);
                assert(0 <= i < n && uuid_parse(found[i].name@) == Some(key));
            }
            if key == job.id.0 {
                assert(uuid_parse(found[n - 1].name@) == Some(key));
            }
        }
        assert(loaded(upto) =~= part);
    }
}

} // verus!
