//! The recipe store: an index of recipes by identifier and a bounded cache of
//! their decoded images, rooted at a directory of per-recipe files.

use crate::cache::{
    cache_entries, cache_get, cache_limit, cache_new, cache_put, distinct_keys, find,
    lemma_stored_keeps, lemma_touched_keeps, stored, touched,
};
use crate::handle::share;
use crate::id::{hyphenated, is_random_form, uuid_parse, RecipeId};
use crate::image::Image;
use crate::index::{
    index_contains, index_entries, index_get, index_insert, index_keys, index_len, index_new,
    index_remove, RecipeIndex,
};
use crate::layout::{image_file_name, save_file_name, FoundRecord, ImageJob, RecordFile, SaveJob};
use crate::recipe::Recipe;
use crate::search::{relevance, score, Query};
use std::sync::Arc;
use vstd::prelude::*;

verus! {

/// How many decoded images the store keeps at most.
pub const IMAGE_CACHE_SIZE: usize = 50;

/// A store of recipes by identifier, with a cache of recipe images and the
/// directory that all recipe files are stored in.
pub struct Database {
    /// The recipe stored under each identifier.
    items: RecipeIndex,
    /// The most recently used images, by identifier.
    images: lru::LruCache<u128, Arc<Image>>,
    /// The directory that all recipe files are stored in.
    dir: String,
}

/// A store as a value.
pub struct DatabaseView {
    /// The recipe stored under each identifier.
    pub items: Map<u128, Recipe>,
    /// The cached images, from the most recently used to the least.
    pub images: Seq<(u128, Image)>,
    /// How many images the cache holds at most.
    pub capacity: nat,
    /// The base directory.
    pub dir: Seq<char>,
}

impl DatabaseView {
    /// What holds of every store: it has finitely many recipes, and its cache
    /// holds at most fifty images, no two for the same recipe.
    pub open spec fn wf(self) -> bool {
        &&& self.items.dom().finite()
        &&& self.capacity == IMAGE_CACHE_SIZE
        &&& self.images.len() <= self.capacity
        &&& distinct_keys(self.images)
    }

    /// The recipe stored under `id`, if there is one.
    pub open spec fn get(self, id: RecipeId) -> Option<Recipe> {
        if self.items.contains_key(id.0) {
            Some(self.items[id.0])
        } else {
            None
        }
    }

    /// The identifiers that the store holds a recipe for.
    pub open spec fn ids(self) -> Set<RecipeId> {
        Set::new(|id: RecipeId| self.items.contains_key(id.0))
    }

    /// The store after `recipe` was stored under its identifier, in place of
    /// what was there.
    pub open spec fn insert(self, recipe: Recipe) -> DatabaseView {
        DatabaseView { items: self.items.insert(recipe.id.0, recipe), ..self }
    }

    /// The store after `recipe` took the place of the recipe with its
    /// identifier; unchanged where there is none.
    pub open spec fn update(self, recipe: Recipe) -> DatabaseView {
        if self.items.contains_key(recipe.id.0) {
            self.insert(recipe)
        } else {
            self
        }
    }

    /// The store after the recipe under `id` was removed. The image cache is
    /// left as it is: an image of the removed recipe stays until it is evicted.
    pub open spec fn remove(self, id: RecipeId) -> DatabaseView {
        DatabaseView { items: self.items.remove(id.0), ..self }
    }

    /// The cached image of `id`, if there is one.
    pub open spec fn cached(self, id: RecipeId) -> Option<Image> {
        match find(self.images, id.0) {
            Some(i) => Some(self.images[i].1),
            None => None,
        }
    }

    /// The store after a look-up of the image of `id`: a cached image becomes
    /// the most recently used one.
    pub open spec fn touch_image(self, id: RecipeId) -> DatabaseView {
        DatabaseView { images: touched(self.images, id.0), ..self }
    }

    /// The store after `image` was cached for `id` as the most recently used
    /// image, in place of the image cached for `id` or, in a full cache, of the
    /// least recently used one.
    pub open spec fn cache_image(self, id: RecipeId, image: Image) -> DatabaseView {
        DatabaseView { images: stored(self.images, self.capacity, id.0, image), ..self }
    }
}

/// Whether `keys` names every recipe of `items` exactly once.
pub open spec fn lists(keys: Seq<u128>, items: Map<u128, Recipe>) -> bool {
    keys.no_duplicates() && keys.to_set() == items.dom()
}

/// Whether the scores of `results` never fall from one entry to the next.
pub open spec fn ascending(results: Seq<(isize, Arc<Recipe>)>) -> bool {
    forall|i: int, j: int| 0 <= i <= j < results.len() ==> results[i].0 <= results[j].0
}

/// Whether `results` holds the recipes stored under `keys`, in that order.
pub open spec fn holds(
    results: Seq<(isize, Arc<Recipe>)>,
    keys: Seq<u128>,
    items: Map<u128, Recipe>,
) -> bool {
    &&& keys.len() == results.len()
    &&& forall|i: int| 0 <= i < results.len() ==> *(#[trigger] results[i]).1 == items[keys[i]]
}

/// Whether `results` is a ranking of `items`: every stored recipe stands in it
/// exactly once, and the scores ascend, so that the best match is last. Which
/// of two recipes with one score comes first is left open.
pub open spec fn is_ranking(results: Seq<(isize, Arc<Recipe>)>, items: Map<u128, Recipe>) -> bool {
    &&& ascending(results)
    &&& exists|keys: Seq<u128>| lists(keys, items) && holds(results, keys, items)
}

/// Whether `jobs` writes every recipe of `items` exactly once, each to the
/// record file of the identifier it is stored under.
pub open spec fn is_save_plan(jobs: Seq<SaveJob>, items: Map<u128, Recipe>) -> bool {
    &&& lists(jobs.map_values(|job: SaveJob| job.id.0), items)
    &&& forall|i: int|
        0 <= i < jobs.len() ==> {
            &&& (#[trigger] jobs[i]).file.is_file_of(jobs[i].id, save_file_name())
            &&& *jobs[i].recipe == items[jobs[i].id.0]
        }
}

/// The index after one entry of the base directory was read: where the
/// entry's name reads as an identifier and a record was found in it, the record
/// is stored under that identifier, whatever identifier the record itself
/// carries. Any other entry is passed over.
pub open spec fn admitted(items: Map<u128, Recipe>, name: Seq<char>, recipe: Option<Arc<Recipe>>) -> Map<
    u128,
    Recipe,
> {
    match (uuid_parse(name), recipe) {
        (Some(key), Some(found)) => items.insert(key, *found),
        _ => items,
    }
}

/// The index that loading builds from what was found in the base directory,
/// entry by entry, starting from nothing.
pub open spec fn loaded(found: Seq<FoundRecord>) -> Map<u128, Recipe>
    decreases found.len(),
{
    if found.len() == 0 {
        Map::empty()
    } else {
        admitted(loaded(found.drop_last()), found.last().name@, found.last().recipe)
    }
}

/// Whether `id` is what an allocation of at most `tries` draws comes to when
/// the identifiers drawn are `draws`, in that order. Every draw is a random
/// identifier. Drawing goes on while the identifier drawn is taken, so every
/// draw but the last is stored in `items`. It ends with the first draw that is
/// free, which is the identifier allocated, or after `tries` draws that were
/// all taken, with nothing.
pub open spec fn allocates(
    items: Map<u128, Recipe>,
    tries: nat,
    draws: Seq<RecipeId>,
    id: Option<RecipeId>,
) -> bool {
    &&& draws.len() <= tries
    &&& forall|i: int| 0 <= i < draws.len() ==> is_random_form((#[trigger] draws[i]).0)
    &&& forall|i: int| 0 <= i < draws.len() - 1 ==> items.contains_key((#[trigger] draws[i]).0)
    &&& match id {
        Some(fresh) => draws.len() > 0 && draws.last() == fresh && !items.contains_key(fresh.0),
        None => draws.len() == tries && (tries > 0 ==> items.contains_key(draws.last().0)),
    }
}

/// What a look-up of a recipe's image comes to.
#[derive(Debug)]
pub enum ImageLookup {
    /// The image is in the cache.
    Cached(Arc<Image>),
    /// The image is not in the cache: it is to be read from this file and,
    /// once decoded, cached.
    Missing(RecordFile),
}

impl View for Database {
    type V = DatabaseView;

    closed spec fn view(&self) -> DatabaseView {
        DatabaseView {
            items: index_entries(self.items),
            images: cache_entries(self.images),
            capacity: cache_limit(self.images),
            dir: self.dir@,
        }
    }
}

impl Database {
    /// What holds of every store that this module hands out.
    pub open spec fn wf(&self) -> bool {
        self@.wf()
    }

    /// Creates a new empty store rooted at `path`.
    pub fn new(path: String) -> (db: Database)
        ensures
            db.wf(),
            db@.items == Map::<u128, Recipe>::empty(),
            db@.images == Seq::<(u128, Image)>::empty(),
            db@.dir == path@,
    {
        Database { items: index_new(), images: cache_new(IMAGE_CACHE_SIZE), dir: path }
    }

    /// The directory that all recipe files are stored in.
    pub fn dir(&self) -> (path: &str)
        ensures
            path@ == self@.dir,
    {
        self.dir.as_str()
    }

    /// Gets a recipe by identifier: a handle that shares the stored recipe.
    pub fn get(&self, id: RecipeId) -> (recipe: Option<Arc<Recipe>>)
        ensures
            match recipe {
                Some(found) => self@.get(id) == Some(*found),
                None => self@.get(id) is None,
            },
    {
        index_get(&self.items, id.0)
    }

    /// The number of recipes in the store.
    pub fn len(&self) -> (n: usize)
        ensures
            n == self@.items.len(),
    {
        index_len(&self.items)
    }

    /// Stores a recipe under its identifier, in place of the recipe that was
    /// stored there, if any.
    pub fn insert(&mut self, recipe: Recipe)
        requires
            old(self).wf(),
        ensures
            final(self).wf(),
            final(self)@ == old(self)@.insert(recipe),
    {
        let key = recipe.id.0;
        index_insert(&mut self.items, key, Arc::new(recipe));
    }

    /// Replaces the stored recipe that has the identifier of `recipe`. Does
    /// nothing if there is none.
    pub fn update(&mut self, recipe: Arc<Recipe>)
        requires
            old(self).wf(),
        ensures
            final(self).wf(),
            final(self)@ == old(self)@.update(*recipe),
    {
        let key = recipe.id.0;
        if index_contains(&self.items, key) {
            index_insert(&mut self.items, key, recipe);
        }
    }

    /// Removes the recipe with the given identifier and names the directory
    /// that is to be deleted with it, relative to the base directory. The
    /// recipe is gone from the store whether or not the directory can be
    /// deleted.
    pub fn remove(&mut self, id: RecipeId) -> (dir_name: String)
        requires
            old(self).wf(),
        ensures
            final(self).wf(),
            final(self)@ == old(self)@.remove(id),
            dir_name@ == hyphenated(id.0),
            uuid_parse(dir_name@) == Some(id.0),
    {
        index_remove(&mut self.items, id.0);
        id.to_string()
    }

    /// The identifiers of all recipes in the store, each once, in no
    /// particular order.
    pub fn ids(&self) -> (ids: Vec<RecipeId>)
        ensures
            ids@.no_duplicates(),
            ids@.to_set() == self@.ids(),
    {
        let keys = index_keys(&self.items);
        let mut ids: Vec<RecipeId> = Vec::new();
        let mut i: usize = 0;
        while i < keys.len()
            invariant
                i <= keys.len(),
                ids@.len() == i,
                forall|j: int| 0 <= j < i ==> ids@[j].0 == keys@[j],
            decreases keys.len() - i,
        {
            ids.push(RecipeId(keys[i]));
            i += 1;
        }
        proof {
            assert forall|a: int, b: int| 0 <= a < ids@.len() && 0 <= b < ids@.len() && a != b
                implies ids@[a] != ids@[b] by {
                assert(keys@[a] != keys@[b]);
            }
            assert forall|id: RecipeId| ids@.to_set().contains(id) <==> self@.ids().contains(
                id,
            ) by {
                if ids@.to_set().contains(id) {
                    let j = choose|j: int| 0 <= j < ids@.len() && ids@[j] == id;
                    assert(keys@.to_set().contains(keys@[j]));
                }
                if self@.ids().contains(id) {
                    assert(keys@.to_set().contains(id.0));
                    let j = choose|j: int| 0 <= j < keys@.len() && keys@[j] == id.0;
                    assert(ids@[j] == id);
                }
            }
            assert(ids@.to_set() =~= self@.ids());
        }
        ids
    }

    /// Searches the store: applies `scorer` to every recipe and returns the
    /// recipes with their scores, lowest score first.
    pub fn search<F: Fn(&Recipe) -> isize>(&self, scorer: F) -> (results: Vec<(isize, Arc<Recipe>)>)
        requires
            forall|key: u128|
                self@.items.contains_key(key) ==> call_requires(
                    scorer,
                    (&#[trigger] self@.items[key],),
                ),
        ensures
            is_ranking(results@, self@.items),
            forall|i: int|
                0 <= i < results@.len() ==> call_ensures(
                    scorer,
                    (&*(#[trigger] results@[i]).1,),
                    results@[i].0,
                ),
    {
        let keys = index_keys(&self.items);
        let ghost items = self@.items;
        let mut results: Vec<(isize, Arc<Recipe>)> = Vec::new();
        let ghost mut placed: Seq<u128> = Seq::empty();
        let mut i: usize = 0;
        while i < keys.len()
            invariant
                i <= keys.len(),
                items == self@.items,
                keys@.no_duplicates(),
                keys@.to_set() == items.dom(),
                forall|key: u128|
                    items.contains_key(key) ==> call_requires(scorer, (&#[trigger] items[key],)),
                placed.len() == i,
                results@.len() == i,
                ascending(results@),
                holds(results@, placed, items),
                placed.no_duplicates(),
                forall|a: int| 0 <= a < i ==> keys@.subrange(0, i as int).contains(#[trigger] placed[a]),
                forall|j: int| 0 <= j < i ==> placed.contains(#[trigger] keys@[j]),
                forall|a: int|
                    0 <= a < results@.len() ==> call_ensures(
                        scorer,
                        (&*(#[trigger] results@[a]).1,),
                        results@[a].0,
                    ),
            decreases keys.len() - i,
        {
            let key = keys[i];
            assert(keys@.to_set().contains(key));
            match index_get(&self.items, key) {
                Some(recipe) => {
                    let score = scorer(&*recipe);
                    let mut at: usize = 0;
                    while at < results.len() && results[at].0 <= score
                        invariant
                            at <= results@.len(),
                            forall|a: int| 0 <= a < at ==> results@[a].0 <= score,
                        decreases results@.len() - at,
                    {
                        at += 1;
                    }
                    let ghost before = results@;
                    let ghost placed_before = placed;
                    results.insert(at, (score, recipe));
                    proof {
                        placed = placed.insert(at as int, key);
                        lemma_placed(keys@, i as int, placed_before, at as int);
                        assert forall|a: int, b: int| 0 <= a <= b < results@.len() implies results@[a].0
                            <= results@[b].0 by {
                            if a < at && b > at {
                                assert(before[a].0 <= score);
                                assert(before[b - 1].0 >= before[at as int].0);
                            } else if a > at {
                                assert(before[a - 1].0 <= before[b - 1].0);
                            }
                        }
                        assert forall|a: int| 0 <= a < results@.len() implies *(
                        #[trigger] results@[a]).1 == items[placed[a]] by {
                            if a < at {
                                assert(results@[a] == before[a]);
                            } else if a > at {
                                assert(results@[a] == before[a - 1]);
                            }
                        }
                        assert forall|a: int| 0 <= a < results@.len() implies call_ensures(
                            scorer,
                            (&*(#[trigger] results@[a]).1,),
                            results@[a].0,
                        ) by {
                            if a < at {
                                assert(results@[a] == before[a]);
                            } else if a > at {
                                assert(results@[a] == before[a - 1]);
                            }
                        }
                    }
                },
                None => {
                    assert(false);
                },
            }
            i += 1;
        }
        proof {
            assert(keys@.subrange(0, i as int) =~= keys@);
            assert forall|key: u128| placed.to_set().contains(key) <==> items.dom().contains(
                key,
            ) by {
                if placed.to_set().contains(key) {
                    let a = choose|a: int| 0 <= a < placed.len() && placed[a] == key;
                    assert(keys@.contains(placed[a]));
                    assert(keys@.to_set().contains(key));
                }
                if items.dom().contains(key) {
                    assert(keys@.to_set().contains(key));
                    let j = choose|j: int| 0 <= j < keys@.len() && keys@[j] == key;
                    assert(placed.contains(keys@[j]));
                }
            }
            assert(placed.to_set() =~= items.dom());
            assert(lists(placed, items) && holds(results@, placed, items));
        }
        results
    }

    /// Searches the store for a query: ranks every recipe by its relevance to
    /// the query's term, the best match last. Nothing is searched where the
    /// term is more than this machine can match.
    pub fn search_query(&self, query: &Query) -> (results: Option<Vec<(isize, Arc<Recipe>)>>)
        ensures
            results is Some == query.searchable(),
            results matches Some(found) ==> {
                &&& is_ranking(found@, self@.items)
                &&& forall|i: int|
                    0 <= i < found@.len() ==> (#[trigger] found@[i]).0 == relevance(
                        query.term@,
                        *found@[i].1,
                    )
            },
    {
        if !query.is_searchable() {
            return None;
        }
        let term = query.term.as_str();
        let scorer = |recipe: &Recipe| -> (s: isize)
            ensures
                s == relevance(term@, *recipe),
            { score(term, recipe) };
        Some(self.search(scorer))
    }

    /// Whether no recipe is stored under `id`.
    pub fn is_free(&self, id: RecipeId) -> (free: bool)
        ensures
            free == self@.get(id) is None,
    {
        !index_contains(&self.items, id.0)
    }

    /// Allocates an identifier for a new recipe: draws random identifiers
    /// until one is drawn that no stored recipe has, and gives up after `tries`
    /// draws that were all taken. A draw can only be taken by a stored recipe
    /// whose identifier is itself a random one, so in a store without such
    /// recipes the first draw is the identifier allocated.
    pub fn new_id(&self, tries: usize) -> (id: Option<RecipeId>)
        ensures
            exists|draws: Seq<RecipeId>| allocates(self@.items, tries as nat, draws, id),
            id matches Some(fresh) ==> self@.get(fresh) is None && is_random_form(fresh.0),
            tries == 0 ==> id is None,
            tries > 0 && (forall|key: u128|
                self@.items.contains_key(key) ==> !is_random_form(key)) ==> id is Some,
    {
        let ghost items = self@.items;
        let ghost mut draws: Seq<RecipeId> = Seq::empty();
        let mut left = tries;
        while left > 0
            invariant
                left <= tries,
                items == self@.items,
                draws.len() == tries - left,
                forall|i: int| 0 <= i < draws.len() ==> is_random_form((#[trigger] draws[i]).0),
                forall|i: int| 0 <= i < draws.len() ==> items.contains_key((#[trigger] draws[i]).0),
            decreases left,
        {
            let candidate = RecipeId::new();
            proof {
                draws = draws.push(candidate);
            }
            if self.is_free(candidate) {
                assert(allocates(items, tries as nat, draws, Some(candidate)));
                return Some(candidate);
            }
            left -= 1;
        }
        assert(allocates(items, tries as nat, draws, None));
        None
    }

    /// Looks up the image of a recipe in the cache. An image that is found
    /// becomes the most recently used one. An image that is not found is to be
    /// read from the file named in the answer; image files are no part of the
    /// index, so the file may well not exist.
    pub fn get_image(&mut self, id: RecipeId) -> (lookup: ImageLookup)
        requires
            old(self).wf(),
        ensures
            final(self).wf(),
            final(self)@ == old(self)@.touch_image(id),
            match old(self)@.cached(id) {
                Some(image) => lookup matches ImageLookup::Cached(found) && *found == image,
                None => lookup matches ImageLookup::Missing(file) && file.is_file_of(
                    id,
                    image_file_name(),
                ),
            },
    {
        proof {
            lemma_touched_keeps(old(self)@.images, id.0);
        }
        match cache_get(&mut self.images, id.0) {
            Some(found) => ImageLookup::Cached(found),
            None => ImageLookup::Missing(RecordFile::image_of(id)),
        }
    }

    /// Caches a decoded image for a recipe as the most recently used image,
    /// and hands back a handle on it. In a full cache the least recently used
    /// image makes room.
    pub fn cache_image(&mut self, id: RecipeId, image: Image) -> (cached: Arc<Image>)
        requires
            old(self).wf(),
        ensures
            final(self).wf(),
            final(self)@ == old(self)@.cache_image(id, image),
            *cached == image,
    {
        proof {
            lemma_stored_keeps(old(self)@.images, old(self)@.capacity, id.0, image);
        }
        let cached = Arc::new(image);
        cache_put(&mut self.images, id.0, share(&cached));
        cached
    }

    /// Prepares the writing of a recipe's image: names the file that the
    /// encoded pixels go to. There is nothing to write for an identifier that
    /// no recipe is stored under. The cache is not touched: it keeps serving
    /// what it holds.
    pub fn set_image(&self, id: RecipeId, image: Image) -> (job: Option<ImageJob>)
        ensures
            match job {
                Some(write) => {
                    &&& self@.items.contains_key(id.0)
                    &&& write.file.is_file_of(id, image_file_name())
                    &&& write.image == image
                },
                None => !self@.items.contains_key(id.0),
            },
    {
        if !index_contains(&self.items, id.0) {
            return None;
        }
        Some(ImageJob { file: RecordFile::image_of(id), image })
    }

    /// Plans the saving of the store: one record to write for every recipe,
    /// each into the directory named after the identifier it is stored under.
    /// Nothing is written where the base directory could not be made ready.
    pub fn save(&self, base_ready: bool) -> (jobs: Vec<SaveJob>)
        ensures
            base_ready ==> is_save_plan(jobs@, self@.items),
            !base_ready ==> jobs@.len() == 0,
    {
        let mut jobs: Vec<SaveJob> = Vec::new();
        if !base_ready {
            return jobs;
        }
        let keys = index_keys(&self.items);
        let ghost items = self@.items;
        let mut i: usize = 0;
        while i < keys.len()
            invariant
                i <= keys.len(),
                items == self@.items,
                keys@.to_set() == items.dom(),
                jobs@.len() == i,
                forall|j: int|
                    0 <= j < i ==> {
                        &&& (#[trigger] jobs@[j]).id.0 == keys@[j]
                        &&& jobs@[j].file.is_file_of(jobs@[j].id, save_file_name())
                        &&& *jobs@[j].recipe == items[keys@[j]]
                    },
            decreases keys.len() - i,
        {
            let key = keys[i];
            assert(keys@.to_set().contains(key));
            match index_get(&self.items, key) {
                Some(recipe) => {
                    let id = RecipeId(key);
                    jobs.push(SaveJob { id, file: RecordFile::record_of(id), recipe });
                },
                None => {
                    assert(false);
                },
            }
            i += 1;
        }
        assert(jobs@.map_values(|job: SaveJob| job.id.0) =~= keys@);
        jobs
    }

    /// Takes in what was found of one entry of the base directory: the record
    /// is stored under the identifier that the entry's name reads as. An
    /// entry whose name is no identifier, or in which no record was found, is
    /// passed over.
    pub fn take_in(&mut self, name: &str, recipe: Option<Arc<Recipe>>)
        requires
            old(self).wf(),
        ensures
            final(self).wf(),
            final(self)@ == (DatabaseView {
                items: admitted(old(self)@.items, name@, recipe),
                ..old(self)@
            }),
    {
        match (RecipeId::parse_str(name), recipe) {
            (Some(id), Some(found)) => {
                index_insert(&mut self.items, id.0, found);
            },
            _ => {},
        }
    }

    /// Loads a store rooted at `dir` from what was found in that directory.
    /// Every entry whose name reads as an identifier and in which a record was
    /// found is stored; the others are passed over. A base directory that is
    /// missing has no entries and gives an empty store.
    pub fn load(dir: String, found: Vec<FoundRecord>) -> (db: Database)
        ensures
            db.wf(),
            db@.items == loaded(found@),
            db@.images == Seq::<(u128, Image)>::empty(),
            db@.dir == dir@,
    {
        let mut db = Database::new(dir);
        let mut i: usize = 0;
        while i < found.len()
            invariant
                i <= found.len(),
                db.wf(),
                db@.items == loaded(found@.subrange(0, i as int)),
                db@.images == Seq::<(u128, Image)>::empty(),
                db@.dir == dir@,
            decreases found.len() - i,
        {
            let recipe = match &found[i].recipe {
                Some(read) => Some(share(read)),
                None => None,
            };
            db.take_in(found[i].name.as_str(), recipe);
            proof {
                let upto = found@.subrange(0, i + 1);
                assert(upto.drop_last() =~= found@.subrange(0, i as int));
                assert(upto.last() == found@[i as int]);
            }
            i += 1;
        }
        assert(found@.subrange(0, i as int) =~= found@);
        db
    }
}

/// Putting the next key of a listing into a sequence that holds exactly the
/// keys before it keeps the sequence free of repeats and makes it hold exactly
/// the keys up to and with the new one.
proof fn lemma_placed(keys: Seq<u128>, i: int, placed: Seq<u128>, at: int)
    requires
        0 <= i < keys.len(),
        keys.no_duplicates(),
        placed.len() == i,
        0 <= at <= i,
        placed.no_duplicates(),
        forall|a: int| 0 <= a < i ==> keys.subrange(0, i).contains(#[trigger] placed[a]),
        forall|j: int| 0 <= j < i ==> placed.contains(#[trigger] keys[j]),
    ensures
        placed.insert(at, keys[i]).len() == i + 1,
        placed.insert(at, keys[i]).no_duplicates(),
        forall|a: int|
            0 <= a < i + 1 ==> keys.subrange(0, i + 1).contains(
                #[trigger] placed.insert(at, keys[i])[a],
            ),
        forall|j: int| 0 <= j < i + 1 ==> placed.insert(at, keys[i]).contains(#[trigger] keys[j]),
{
    let next = placed.insert(at, keys[i]);
    assert forall|a: int| 0 <= a < i implies placed[a] != keys[i] by {
        assert(keys.subrange(0, i).contains(placed[a]));
        let j = choose|j: int| 0 <= j < i && keys.subrange(0, i)[j] == placed[a];
        assert(keys[j] == placed[a]);
    }
    assert forall|a: int, b: int| 0 <= a < next.len() && 0 <= b < next.len() && a != b implies next[a]
        != next[b] by {
        let pa = if a < at { a } else { a - 1 };
        let pb = if b < at { b } else { b - 1 };
        if a == at {
            assert(next[b] == placed[pb]);
        } else if b == at {
            assert(next[a] == placed[pa]);
        } else {
            assert(next[a] == placed[pa] && next[b] == placed[pb]);
        }
    }
    assert forall|a: int| 0 <= a < i + 1 implies keys.subrange(0, i + 1).contains(
        #[trigger] next[a],
    ) by {
        if a == at {
            assert(keys.subrange(0, i + 1)[i] == keys[i]);
        } else {
            let pa = if a < at { a } else { a - 1 };
            assert(next[a] == placed[pa]);
            assert(keys.subrange(0, i).contains(placed[pa]));
            let j = choose|j: int| 0 <= j < i && keys.subrange(0, i)[j] == placed[pa];
            assert(keys.subrange(0, i + 1)[j] == placed[pa]);
        }
    }
    assert forall|j: int| 0 <= j < i + 1 implies next.contains(#[trigger] keys[j]) by {
        if j == i {
            assert(next[at] == keys[i]);
        } else {
            assert(placed.contains(keys[j]));
            let a = choose|a: int| 0 <= a < placed.len() && placed[a] == keys[j];
            let na = if a < at { a } else { a + 1 };
            assert(next[na] == keys[j]);
        }
    }
}

} // verus!
