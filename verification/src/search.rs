//! Relevance ranking: how well a recipe answers a search term.

use crate::recipe::Recipe;
use vstd::prelude::*;
use vstd::string::StrSliceExecFns;

verus! {

/// What `sublime_fuzzy::best_match` makes of a query and a target: the score of
/// the best match of the whole query in the target, or nothing where the query
/// does not match.
pub uninterp spec fn fuzzy_score(query: Seq<char>, target: Seq<char>) -> Option<isize>;

/// More bytes than the matcher's table takes for each slot asked of it. The
/// table keeps a key of three words, a match of five words and a byte of its
/// own in a slot, and makes at most sixteen sevenths as many slots as it was
/// asked for.
pub const TABLE_SLOT_BYTES: usize = 256;

/// Whether this machine can match a term. Before it starts, the matcher
/// reserves a table with a slot for every pair of characters of the term; a
/// table of more bytes than the machine can address cannot be reserved.
pub open spec fn matchable(term: Seq<char>) -> bool {
    term.len() * term.len() * TABLE_SLOT_BYTES <= isize::MAX
}

/// Whether this machine can match a term.
pub fn is_matchable(term: &str) -> (b: bool)
    ensures
        b == matchable(term@),
{
    let len = term.unicode_len();
    let pairs = match len.checked_mul(len) {
        Some(pairs) => pairs,
        None => {
            assert(len * len * TABLE_SLOT_BYTES >= len * len) by (nonlinear_arith);
            return false;
        },
    };
    match pairs.checked_mul(TABLE_SLOT_BYTES) {
        Some(bytes) => bytes <= isize::MAX as usize,
        None => false,
    }
}

/// Calls `sublime_fuzzy::best_match` and keeps the score of what it found. The
/// match ignores case and is a function of the two texts alone. By the crate's
/// documentation an empty query or an empty target matches nothing. The call
/// panics where the table it reserves for the query is too large to address.
#[verifier::external_body]
fn best_match(query: &str, target: &str) -> (score: Option<isize>)
    requires
        matchable(query@),
    ensures
        score == fuzzy_score(query@, target@),
        query@.len() == 0 || target@.len() == 0 ==> score is None,
{
    sublime_fuzzy::best_match(query, target).map(|found| found.score())
}

/// The relevance of a record whose name and body matched as given: the score
/// of the name where it matched, else that of the body, else the lowest score
/// there is.
pub open spec fn spec_rank(name_match: Option<isize>, body_match: Option<isize>) -> isize {
    match name_match {
        Some(score) => score,
        None => match body_match {
            Some(score) => score,
            None => isize::MIN,
        },
    }
}

/// The relevance of a record whose name and body matched as given. Higher is
/// better; a record that matched nowhere gets `isize::MIN` and so sorts last.
pub fn rank(name_match: Option<isize>, body_match: Option<isize>) -> (score: isize)
    ensures
        score == spec_rank(name_match, body_match),
{
    match name_match {
        Some(score) => score,
        None => match body_match {
            Some(score) => score,
            None => isize::MIN,
        },
    }
}

/// The relevance of `recipe` to the search term `term`.
pub open spec fn relevance(term: Seq<char>, recipe: Recipe) -> isize {
    spec_rank(fuzzy_score(term, recipe.name@), fuzzy_score(term, recipe.body@))
}

/// A search query with all parameters used to find results in a recipe
/// database.
#[derive(Clone, Debug)]
pub struct Query {
    /// General search term.
    pub term: String,
}

impl Query {
    /// Whether this machine can match the query's term.
    pub open spec fn searchable(&self) -> bool {
        matchable(self.term@)
    }

    /// Whether this machine can match the query's term.
    pub fn is_searchable(&self) -> (b: bool)
        ensures
            b == self.searchable(),
    {
        is_matchable(self.term.as_str())
    }
}

/// Scores `recipe` against `term`: the term is matched against the recipe's
/// name and, only where the name does not match, against its body.
pub fn score(term: &str, recipe: &Recipe) -> (score: isize)
    requires
        matchable(term@),
    ensures
        score == relevance(term@, *recipe),
        term@.len() == 0 ==> score == isize::MIN,
{
    let name_match = best_match(term, recipe.name.as_str());
    match name_match {
        Some(_) => rank(name_match, None),
        None => rank(name_match, best_match(term, recipe.body.as_str())),
    }
}

} // verus!
