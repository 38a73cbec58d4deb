//! The entry store: persistent-style rows for recipes and their tag
//! associations, with point lookup, uniformly random selection,
//! tag-filtered selection and atomic insertion.
//!
//! The store keeps the entry rows and the (entry, tag) association rows
//! in memory; the observable query contract is the point.  Tag-filtered
//! selection computes the distinct set of matching entry identifiers and
//! draws one at random: any non-empty match set yields a winner, and only
//! an empty one reports "no match".  (The cardinality check is applied
//! before truncating to one row, so a multi-entry match is a success with
//! a random winner, never a silent "no match".)

use vstd::prelude::*;

use crate::strutil::str_eq;

verus! {

/// Business outcomes of store operations that do not return a row.
#[derive(Debug, Clone, Copy, PartialEq, Eq, Structural)]
pub enum StoreError {
    /// A point lookup matched no entry.
    NotFound,
    /// Random selection over an empty store.
    Empty,
    /// Insertion of an entry whose identifier is already present.
    Conflict,
}

/// A stored entry: a unique identifier and its descriptive fields.
pub struct Recipe {
    pub id: String,
    pub dish_name: String,
    pub ingredients: String,
    pub time_to_prepare: String,
    pub source: String,
}

/// The mathematical value of a [`Recipe`]: its fields as character
/// sequences.
pub struct RecipeView {
    pub id: Seq<char>,
    pub dish_name: Seq<char>,
    pub ingredients: Seq<char>,
    pub time_to_prepare: Seq<char>,
    pub source: Seq<char>,
}

impl View for Recipe {
    type V = RecipeView;

    open spec fn view(&self) -> RecipeView {
        RecipeView {
            id: self.id@,
            dish_name: self.dish_name@,
            ingredients: self.ingredients@,
            time_to_prepare: self.time_to_prepare@,
            source: self.source@,
        }
    }
}

impl Clone for Recipe {
    fn clone(&self) -> (r: Self)
        ensures
            r@ == self@,
    {
        Recipe {
            id: self.id.clone(),
            dish_name: self.dish_name.clone(),
            ingredients: self.ingredients.clone(),
            time_to_prepare: self.time_to_prepare.clone(),
            source: self.source.clone(),
        }
    }
}

/// The JSON-facing representation of an entry: the entry fields plus its
/// tag list.  Duplicate tags are discarded on insertion, so the stored
/// associations have set semantics.
pub struct JsonRecipe {
    pub id: String,
    pub dish_name: String,
    pub ingredients: String,
    pub time_to_prepare: String,
    pub tags: Vec<String>,
    pub source: String,
}

/// The mathematical value of a [`JsonRecipe`].
pub struct JsonRecipeView {
    pub id: Seq<char>,
    pub dish_name: Seq<char>,
    pub ingredients: Seq<char>,
    pub time_to_prepare: Seq<char>,
    pub tags: Seq<Seq<char>>,
    pub source: Seq<char>,
}

impl View for JsonRecipe {
    type V = JsonRecipeView;

    open spec fn view(&self) -> JsonRecipeView {
        JsonRecipeView {
            id: self.id@,
            dish_name: self.dish_name@,
            ingredients: self.ingredients@,
            time_to_prepare: self.time_to_prepare@,
            tags: self.tags@.map_values(|t: String| t@),
            source: self.source@,
        }
    }
}

impl JsonRecipeView {
    /// The entry fields of this value, without the tag list.
    pub open spec fn as_recipe(self) -> RecipeView {
        RecipeView {
            id: self.id,
            dish_name: self.dish_name,
            ingredients: self.ingredients,
            time_to_prepare: self.time_to_prepare,
            source: self.source,
        }
    }
}

impl JsonRecipe {
    /// Constructs a `JsonRecipe` from an entry and its tag list.
    pub fn new(recipe: Recipe, tags: Vec<String>) -> (r: Self)
        ensures
            r@.as_recipe() == recipe@,
            r@.tags == tags@.map_values(|t: String| t@),
    {
        JsonRecipe {
            id: recipe.id,
            dish_name: recipe.dish_name,
            ingredients: recipe.ingredients,
            time_to_prepare: recipe.time_to_prepare,
            tags,
            source: recipe.source,
        }
    }

    /// Splits a `JsonRecipe` into an entry and its tag list.
    #[verifier::loop_isolation(false)]
    pub fn to_recipe(&self) -> (r: (Recipe, Vec<String>))
        ensures
            r.0@ == self@.as_recipe(),
            r.1@.map_values(|t: String| t@) == self@.tags,
    {
        let recipe = Recipe {
            id: self.id.clone(),
            dish_name: self.dish_name.clone(),
            ingredients: self.ingredients.clone(),
            time_to_prepare: self.time_to_prepare.clone(),
            source: self.source.clone(),
        };
        let mut tags: Vec<String> = Vec::new();
        let mut i: usize = 0;
        while i < self.tags.len()
            invariant
                i <= self.tags@.len(),
                tags@.map_values(|t: String| t@) == self.tags@.map_values(|t: String| t@).take(
                    i as int,
                ),
            decreases self.tags@.len() - i,
        {
            tags.push(self.tags[i].clone());
            proof {
                let m = self.tags@.map_values(|t: String| t@);
                assert(tags@.map_values(|t: String| t@) =~= m.take(i + 1));
            }
            i += 1;
        }
        proof {
            let m = self.tags@.map_values(|t: String| t@);
            assert(m.take(m.len() as int) =~= m);
        }
        (recipe, tags)
    }
}

/// The tag-association rows as pairs of character sequences.
pub open spec fn pair_views(ps: Seq<(String, String)>) -> Seq<(Seq<char>, Seq<char>)> {
    ps.map_values(|p: (String, String)| (p.0@, p.1@))
}

/// The tags associated with `id`, in association order.
pub open spec fn assoc_tags(pairs: Seq<(Seq<char>, Seq<char>)>, id: Seq<char>) -> Seq<Seq<char>>
    decreases pairs.len(),
{
    if pairs.len() == 0 {
        Seq::empty()
    } else {
        let rest = assoc_tags(pairs.drop_last(), id);
        if pairs.last().0 == id {
            rest.push(pairs.last().1)
        } else {
            rest
        }
    }
}

/// The distinct entry identifiers with an association whose tag lies in
/// `filter`, in order of first matching association.
pub open spec fn candidates(
    pairs: Seq<(Seq<char>, Seq<char>)>,
    filter: Seq<Seq<char>>,
) -> Seq<Seq<char>>
    decreases pairs.len(),
{
    if pairs.len() == 0 {
        Seq::empty()
    } else {
        let prev = candidates(pairs.drop_last(), filter);
        let p = pairs.last();
        if filter.contains(p.1) && !prev.contains(p.0) {
            prev.push(p.0)
        } else {
            prev
        }
    }
}

/// An identifier is a candidate exactly when some association pairs it
/// with a tag of the filter.
pub proof fn lemma_candidates_contains(
    pairs: Seq<(Seq<char>, Seq<char>)>,
    filter: Seq<Seq<char>>,
    id: Seq<char>,
)
    ensures
        candidates(pairs, filter).contains(id) <==> exists|k: int|
            0 <= k < pairs.len() && pairs[k].0 == id && filter.contains(pairs[k].1),
    decreases pairs.len(),
{
    if pairs.len() > 0 {
        lemma_candidates_contains(pairs.drop_last(), filter, id);
        let prev = candidates(pairs.drop_last(), filter);
        let p = pairs.last();
        if filter.contains(p.1) && !prev.contains(p.0) {
            assert forall|x: Seq<char>| prev.push(p.0).contains(x) implies prev.contains(x) || x
                == p.0 by {
                let i = choose|i: int| 0 <= i < prev.push(p.0).len() && prev.push(p.0)[i] == x;
                if i < prev.len() {
                    assert(prev[i] == x);
                }
            }
            if prev.push(p.0).contains(id) {
                if id == p.0 {
                    assert(pairs[pairs.len() - 1].0 == id && filter.contains(
                        pairs[pairs.len() - 1].1,
                    ));
                } else {
                    let k = choose|k: int|
                        0 <= k < pairs.drop_last().len() && pairs.drop_last()[k].0 == id
                            && filter.contains(pairs.drop_last()[k].1);
                    assert(pairs[k].0 == id && filter.contains(pairs[k].1));
                }
            }
            if exists|k: int| 0 <= k < pairs.len() && pairs[k].0 == id && filter.contains(
                pairs[k].1,
            ) {
                let k = choose|k: int|
                    0 <= k < pairs.len() && pairs[k].0 == id && filter.contains(pairs[k].1);
                if k < pairs.len() - 1 {
                    assert(pairs.drop_last()[k].0 == id && filter.contains(pairs.drop_last()[k].1));
                    assert(prev.contains(id));
                    assert(prev.push(p.0)[choose|i: int|
                        0 <= i < prev.len() && prev[i] == id] == id);
                } else {
                    assert(prev.push(p.0).last() == id);
                }
            }
        } else {
            if prev.contains(id) {
                let k = choose|k: int|
                    0 <= k < pairs.drop_last().len() && pairs.drop_last()[k].0 == id
                        && filter.contains(pairs.drop_last()[k].1);
                assert(pairs[k].0 == id && filter.contains(pairs[k].1));
            }
            if exists|k: int| 0 <= k < pairs.len() && pairs[k].0 == id && filter.contains(
                pairs[k].1,
            ) {
                let k = choose|k: int|
                    0 <= k < pairs.len() && pairs[k].0 == id && filter.contains(pairs[k].1);
                if k == pairs.len() - 1 {
                    assert(filter.contains(p.1));
                    assert(prev.contains(p.0));
                } else {
                    assert(pairs.drop_last()[k].0 == id && filter.contains(pairs.drop_last()[k].1));
                }
            }
        }
    }
}

/// The input sequence with every repeated element dropped, keeping first
/// occurrences.
pub open spec fn dedup(ts: Seq<Seq<char>>) -> Seq<Seq<char>>
    decreases ts.len(),
{
    if ts.len() == 0 {
        Seq::empty()
    } else {
        let prev = dedup(ts.drop_last());
        if prev.contains(ts.last()) {
            prev
        } else {
            prev.push(ts.last())
        }
    }
}

/// Deduplication keeps exactly the elements of the input.
pub proof fn lemma_dedup_contains(ts: Seq<Seq<char>>, x: Seq<char>)
    ensures
        dedup(ts).contains(x) <==> ts.contains(x),
    decreases ts.len(),
{
    if ts.len() > 0 {
        lemma_dedup_contains(ts.drop_last(), x);
        let prev = dedup(ts.drop_last());
        if ts.drop_last().contains(x) {
            let k = choose|k: int| 0 <= k < ts.drop_last().len() && ts.drop_last()[k] == x;
            assert(ts[k] == x);
        }
        if prev.contains(ts.last()) {
            if ts.contains(x) {
                let k = choose|k: int| 0 <= k < ts.len() && ts[k] == x;
                if k < ts.len() - 1 {
                    assert(ts.drop_last()[k] == x);
                }
            }
        } else {
            if prev.push(ts.last()).contains(x) {
                let i = choose|i: int|
                    0 <= i < prev.push(ts.last()).len() && prev.push(ts.last())[i] == x;
                if i < prev.len() {
                    assert(prev[i] == x);
                }
            }
            if ts.contains(x) {
                let k = choose|k: int| 0 <= k < ts.len() && ts[k] == x;
                if k < ts.len() - 1 {
                    assert(ts.drop_last()[k] == x);
                    let i = choose|i: int| 0 <= i < prev.len() && prev[i] == x;
                    assert(prev.push(ts.last())[i] == x);
                } else {
                    assert(prev.push(ts.last()).last() == x);
                }
            }
        }
    }
}

/// Deduplication yields pairwise distinct elements.
pub proof fn lemma_dedup_distinct(ts: Seq<Seq<char>>)
    ensures
        forall|i: int, j: int|
            0 <= i < j < dedup(ts).len() ==> dedup(ts)[i] != dedup(ts)[j],
    decreases ts.len(),
{
    if ts.len() > 0 {
        lemma_dedup_distinct(ts.drop_last());
        let prev = dedup(ts.drop_last());
        if !prev.contains(ts.last()) {
            assert forall|i: int, j: int|
                0 <= i < j < prev.push(ts.last()).len() implies prev.push(ts.last())[i] != prev.push(
                ts.last(),
            )[j] by {
                if j == prev.len() {
                    if prev.push(ts.last())[i] == ts.last() {
                        assert(prev[i] == ts.last());
                        assert(prev.contains(ts.last()));
                    }
                }
            }
        }
    }
}

/// Association lookup distributes over concatenation of the rows.
proof fn lemma_assoc_tags_append(
    a: Seq<(Seq<char>, Seq<char>)>,
    b: Seq<(Seq<char>, Seq<char>)>,
    id: Seq<char>,
)
    ensures
        assoc_tags(a + b, id) == assoc_tags(a, id) + assoc_tags(b, id),
    decreases b.len(),
{
    if b.len() == 0 {
        assert(a + b =~= a);
        assert(assoc_tags(a, id) + assoc_tags(b, id) =~= assoc_tags(a, id));
    } else {
        lemma_assoc_tags_append(a, b.drop_last(), id);
        assert((a + b).drop_last() =~= a + b.drop_last());
        assert((a + b).last() == b.last());
        if b.last().0 == id {
            assert(assoc_tags(a, id) + assoc_tags(b.drop_last(), id).push(b.last().1)
                =~= (assoc_tags(a, id) + assoc_tags(b.drop_last(), id)).push(b.last().1));
        }
    }
}

/// Rows that all carry other identifiers contribute no tags.
proof fn lemma_assoc_tags_none(a: Seq<(Seq<char>, Seq<char>)>, id: Seq<char>)
    requires
        forall|k: int| 0 <= k < a.len() ==> a[k].0 != id,
    ensures
        assoc_tags(a, id) == Seq::<Seq<char>>::empty(),
    decreases a.len(),
{
    if a.len() > 0 {
        lemma_assoc_tags_none(a.drop_last(), id);
    }
}

/// Rows that all carry this identifier contribute exactly their tags.
proof fn lemma_assoc_tags_all(ts: Seq<Seq<char>>, id: Seq<char>)
    ensures
        assoc_tags(ts.map_values(|t: Seq<char>| (id, t)), id) == ts,
    decreases ts.len(),
{
    let m = ts.map_values(|t: Seq<char>| (id, t));
    if ts.len() == 0 {
        assert(assoc_tags(m, id) =~= ts);
    } else {
        lemma_assoc_tags_all(ts.drop_last(), id);
        assert(m.drop_last() =~= ts.drop_last().map_values(|t: Seq<char>| (id, t)));
        assert(m.last() == (id, ts.last()));
        assert(assoc_tags(m, id) =~= ts.drop_last().push(ts.last()));
        assert(ts.drop_last().push(ts.last()) =~= ts);
    }
}

/// Relies on fastrand::usize: a random value drawn from the given range,
/// which panics only on an empty range; the precondition rules that out.
#[verifier::external_body]
fn random_below(n: usize) -> (r: usize)
    requires
        n > 0,
    ensures
        r < n,
{
    fastrand::usize(..n)
}

/// The entry store: entry rows plus (entry identifier, tag) association
/// rows.
pub struct RecipeStore {
    pub recipes: Vec<Recipe>,
    pub tags: Vec<(String, String)>,
}

impl RecipeStore {
    /// Entry identifiers are unique, association pairs are unique (set
    /// semantics), and every association refers to a stored entry.
    pub open spec fn wf(self) -> bool {
        &&& forall|i: int, j: int|
            0 <= i < j < self.recipes@.len() ==> self.recipes@[i].id@ != self.recipes@[j].id@
        &&& forall|i: int, j: int|
            0 <= i < j < self.tags@.len() ==> pair_views(self.tags@)[i] != pair_views(self.tags@)[j]
        &&& forall|k: int|
            0 <= k < self.tags@.len() ==> self.has_id(pair_views(self.tags@)[k].0)
    }

    /// Whether some stored entry has this identifier.
    pub open spec fn has_id(self, id: Seq<char>) -> bool {
        exists|i: int| 0 <= i < self.recipes@.len() && self.recipes@[i].id@ == id
    }

    /// The index of the entry with this identifier.
    pub open spec fn index_of_id(self, id: Seq<char>) -> int {
        choose|i: int| 0 <= i < self.recipes@.len() && self.recipes@[i].id@ == id
    }

    /// The entry stored under this identifier.
    pub open spec fn entry_with(self, id: Seq<char>) -> RecipeView {
        self.recipes@[self.index_of_id(id)]@
    }

    /// The tags associated with this identifier, in association order.
    pub open spec fn tags_of(self, id: Seq<char>) -> Seq<Seq<char>> {
        assoc_tags(pair_views(self.tags@), id)
    }

    /// Whether some association pairs `id` with a tag of `filter`.
    pub open spec fn id_matches(self, filter: Seq<Seq<char>>, id: Seq<char>) -> bool {
        exists|k: int|
            0 <= k < self.tags@.len() && pair_views(self.tags@)[k].0 == id && filter.contains(
                pair_views(self.tags@)[k].1,
            )
    }

    /// Whether any stored entry's tag set intersects `filter`.
    pub open spec fn some_match(self, filter: Seq<Seq<char>>) -> bool {
        exists|k: int|
            0 <= k < self.tags@.len() && filter.contains(pair_views(self.tags@)[k].1)
    }

    /// In a well-formed store the entry stored under the identifier of
    /// row `i` is row `i` itself; point lookup is thus exact and, with no
    /// intervening mutation, idempotent.
    pub proof fn lemma_entry_with_exact(self, i: int)
        requires
            self.wf(),
            0 <= i < self.recipes@.len(),
        ensures
            self.has_id(self.recipes@[i].id@),
            self.index_of_id(self.recipes@[i].id@) == i,
            self.entry_with(self.recipes@[i].id@) == self.recipes@[i]@,
    {
        let id = self.recipes@[i].id@;
        assert(self.has_id(id));
        let j = self.index_of_id(id);
        if i != j {
            if i < j {
                assert(self.recipes@[i].id@ != self.recipes@[j].id@);
            } else {
                assert(self.recipes@[j].id@ != self.recipes@[i].id@);
            }
        }
    }

    /// An empty store.
    pub fn new() -> (r: Self)
        ensures
            r.wf(),
            r.recipes@.len() == 0,
            r.tags@.len() == 0,
    {
        RecipeStore { recipes: Vec::new(), tags: Vec::new() }
    }

    /// Point lookup: the entry with this identifier and its exact tag
    /// list, or `NotFound`.  The result is a function of the store and
    /// the identifier alone.
    #[verifier::loop_isolation(false)]
    pub fn get(&self, recipe_id: &str) -> (r: Result<(Recipe, Vec<String>), StoreError>)
        requires
            self.wf(),
        ensures
            r is Ok <==> self.has_id(recipe_id@),
            r matches Ok(p) ==> p.0@ == self.entry_with(recipe_id@) && p.0.id@ == recipe_id@
                && p.1@.map_values(|t: String| t@) == self.tags_of(recipe_id@),
            r matches Err(e) ==> e == StoreError::NotFound,
    {
        let n = self.recipes.len();
        let mut i: usize = 0;
        while i < n
            invariant
                n == self.recipes@.len(),
                i <= n,
                forall|k: int| 0 <= k < i ==> self.recipes@[k].id@ != recipe_id@,
            decreases n - i,
        {
            if str_eq(self.recipes[i].id.as_str(), recipe_id) {
                let rec = self.recipes[i].clone();
                proof {
                    self.lemma_entry_with_exact(i as int);
                }
                let tags = self.collect_tags(recipe_id);
                return Ok((rec, tags));
            }
            i += 1;
        }
        Err(StoreError::NotFound)
    }

    /// Collects the tags associated with an identifier, in association
    /// order.
    #[verifier::loop_isolation(false)]
    fn collect_tags(&self, recipe_id: &str) -> (r: Vec<String>)
        ensures
            r@.map_values(|t: String| t@) == self.tags_of(recipe_id@),
    {
        let pn = self.tags.len();
        let ghost pv = pair_views(self.tags@);
        let mut out: Vec<String> = Vec::new();
        let mut k: usize = 0;
        while k < pn
            invariant
                pn == self.tags@.len(),
                pv == pair_views(self.tags@),
                pv.len() == pn,
                k <= pn,
                out@.map_values(|t: String| t@) == assoc_tags(pv.take(k as int), recipe_id@),
            decreases pn - k,
        {
            proof {
                assert(pv.take(k + 1).drop_last() =~= pv.take(k as int));
                assert(pv.take(k + 1).last() == pv[k as int]);
            }
            if str_eq(self.tags[k].0.as_str(), recipe_id) {
                let ghost m = out@.map_values(|t: String| t@);
                out.push(self.tags[k].1.clone());
                proof {
                    assert(out@.map_values(|t: String| t@) =~= m.push(pv[k as int].1));
                }
            }
            k += 1;
        }
        proof {
            assert(pv.take(pn as int) =~= pv);
        }
        out
    }

    /// Uniformly random selection: the identifier of some stored entry,
    /// or `Empty` exactly when the store holds no entries.
    pub fn get_random(&self) -> (r: Result<String, StoreError>)
        ensures
            r is Ok <==> self.recipes@.len() > 0,
            r matches Ok(id) ==> self.has_id(id@),
            r matches Err(e) ==> e == StoreError::Empty,
    {
        let n = self.recipes.len();
        if n == 0 {
            Err(StoreError::Empty)
        } else {
            let i = random_below(n);
            Ok(self.recipes[i].id.clone())
        }
    }

    /// Tag-filtered selection: draws one identifier at random among the
    /// distinct entries whose tag set intersects the filter; `None`
    /// exactly when no stored entry's tag set intersects it.
    #[verifier::loop_isolation(false)]
    pub fn get_tagged(&self, filter: &Vec<String>) -> (r: Option<String>)
        requires
            self.wf(),
        ensures
            r matches Some(id) ==> self.has_id(id@) && self.id_matches(
                filter@.map_values(|t: String| t@),
                id@,
            ),
            r is None <==> !self.some_match(filter@.map_values(|t: String| t@)),
    {
        let ghost fv = filter@.map_values(|t: String| t@);
        let ghost pv = pair_views(self.tags@);
        let pn = self.tags.len();
        let mut cand: Vec<String> = Vec::new();
        let mut k: usize = 0;
        while k < pn
            invariant
                pn == self.tags@.len(),
                pv == pair_views(self.tags@),
                fv == filter@.map_values(|t: String| t@),
                pv.len() == pn,
                k <= pn,
                cand@.map_values(|t: String| t@) == candidates(pv.take(k as int), fv),
            decreases pn - k,
        {
            proof {
                assert(pv.take(k + 1).drop_last() =~= pv.take(k as int));
                assert(pv.take(k + 1).last() == pv[k as int]);
            }
            if contains_str(filter, self.tags[k].1.as_str()) && !contains_str(
                &cand,
                self.tags[k].0.as_str(),
            ) {
                let ghost m = cand@.map_values(|t: String| t@);
                cand.push(self.tags[k].0.clone());
                proof {
                    assert(cand@.map_values(|t: String| t@) =~= m.push(pv[k as int].0));
                }
            }
            k += 1;
        }
        proof {
            assert(pv.take(pn as int) =~= pv);
        }
        if cand.len() == 0 {
            proof {
                if self.some_match(fv) {
                    let k = choose|k: int| 0 <= k < pv.len() && fv.contains(pv[k].1);
                    lemma_candidates_contains(pv, fv, pv[k].0);
                }
            }
            None
        } else {
            let i = random_below(cand.len());
            let id = cand[i].clone();
            proof {
                let cv = cand@.map_values(|t: String| t@);
                assert(cv[i as int] == id@);
                assert(cv.contains(id@));
                lemma_candidates_contains(pv, fv, id@);
                let k = choose|k: int| 0 <= k < pv.len() && pv[k].0 == id@ && fv.contains(pv[k].1);
                assert(self.has_id(pv[k].0));
            }
            Some(id)
        }
    }

    /// Atomic insertion: either the entry and all its (deduplicated) tag
    /// associations are recorded, or — when the identifier is already
    /// present — the store is unchanged and `Conflict` is reported.
    #[verifier::loop_isolation(false)]
    pub fn add(&mut self, recipe: JsonRecipe) -> (r: Result<(), StoreError>)
        requires
            old(self).wf(),
        ensures
            final(self).wf(),
            old(self).has_id(recipe@.id) ==> (r matches Err(e) && e == StoreError::Conflict
                && *final(self) == *old(self)),
            !old(self).has_id(recipe@.id) ==> r is Ok && final(self).recipes@.map_values(
                |x: Recipe| x@,
            ) == old(self).recipes@.map_values(|x: Recipe| x@).push(recipe@.as_recipe())
                && pair_views(final(self).tags@) == pair_views(old(self).tags@) + dedup(
                recipe@.tags,
            ).map_values(|t: Seq<char>| (recipe@.id, t)),
    {
        let n = self.recipes.len();
        let mut i: usize = 0;
        while i < n
            invariant
                n == self.recipes@.len(),
                i <= n,
                forall|k: int| 0 <= k < i ==> self.recipes@[k].id@ != recipe@.id,
            decreases n - i,
        {
            if str_eq(self.recipes[i].id.as_str(), recipe.id.as_str()) {
                return Err(StoreError::Conflict);
            }
            i += 1;
        }
        // The identifier is fresh: record the entry and its tag rows.
        let ghost old_store = *self;
        let (rec, tag_list) = recipe.to_recipe();
        self.recipes.push(rec);
        proof {
            assert(self.recipes@.map_values(|x: Recipe| x@) =~= old_store.recipes@.map_values(
                |x: Recipe| x@,
            ).push(recipe@.as_recipe()));
        }
        let ghost tv = recipe@.tags;
        let tn = tag_list.len();
        let mut seen: Vec<String> = Vec::new();
        let mut j: usize = 0;
        while j < tn
            invariant
                tn == tag_list@.len(),
                tv == tag_list@.map_values(|t: String| t@),
                tv.len() == tn,
                j <= tn,
                seen@.map_values(|t: String| t@) == dedup(tv.take(j as int)),
                pair_views(self.tags@) == pair_views(old_store.tags@) + dedup(
                    tv.take(j as int),
                ).map_values(|t: Seq<char>| (recipe@.id, t)),
                self.recipes@.map_values(|x: Recipe| x@) == old_store.recipes@.map_values(
                    |x: Recipe| x@,
                ).push(recipe@.as_recipe()),
                recipe@.id == recipe.id@,
            decreases tn - j,
        {
            proof {
                assert(tv.take(j + 1).drop_last() =~= tv.take(j as int));
                assert(tv.take(j + 1).last() == tv[j as int]);
            }
            if !contains_str(&seen, tag_list[j].as_str()) {
                let ghost sm = seen@.map_values(|t: String| t@);
                let ghost pm = pair_views(self.tags@);
                seen.push(tag_list[j].clone());
                self.tags.push((recipe.id.clone(), tag_list[j].clone()));
                proof {
                    assert(seen@.map_values(|t: String| t@) =~= sm.push(tv[j as int]));
                    assert(pair_views(self.tags@) =~= pm.push((recipe@.id, tv[j as int])));
                    assert(pair_views(self.tags@) =~= pair_views(old_store.tags@) + dedup(
                        tv.take(j + 1),
                    ).map_values(|t: Seq<char>| (recipe@.id, t)));
                }
            } else {
                proof {
                    assert(dedup(tv.take(j + 1)) == dedup(tv.take(j as int)));
                }
            }
            j += 1;
        }
        proof {
            assert(tv.take(tn as int) =~= tv);
            self.lemma_add_preserves_wf(old_store, recipe@);
        }
        Ok(())
    }

    /// Re-establishes well-formedness after an insertion with a fresh
    /// identifier.
    proof fn lemma_add_preserves_wf(self, old_store: RecipeStore, jr: JsonRecipeView)
        requires
            old_store.wf(),
            !old_store.has_id(jr.id),
            self.recipes@.map_values(|x: Recipe| x@) == old_store.recipes@.map_values(
                |x: Recipe| x@,
            ).push(jr.as_recipe()),
            pair_views(self.tags@) == pair_views(old_store.tags@) + dedup(jr.tags).map_values(
                |t: Seq<char>| (jr.id, t),
            ),
        ensures
            self.wf(),
    {
        let orv = old_store.recipes@.map_values(|x: Recipe| x@);
        let nrv = self.recipes@.map_values(|x: Recipe| x@);
        let opv = pair_views(old_store.tags@);
        let npv = pair_views(self.tags@);
        let added = dedup(jr.tags).map_values(|t: Seq<char>| (jr.id, t));
        assert(nrv.len() == orv.len() + 1);
        assert(self.recipes@.len() == nrv.len());
        assert(old_store.recipes@.len() == orv.len());
        assert(added.len() == dedup(jr.tags).len());
        assert(npv.len() == opv.len() + added.len());
        assert(npv.len() == self.tags@.len());
        assert(opv.len() == old_store.tags@.len());
        assert forall|x: int| 0 <= x < opv.len() implies npv[x] == opv[x] by {
            assert((opv + added)[x] == opv[x]);
        }
        assert forall|x: int| 0 <= x < added.len() implies npv[opv.len() + x] == added[x] by {
            assert((opv + added)[opv.len() + x] == added[x]);
        }
        assert forall|x: int| 0 <= x < orv.len() implies nrv[x] == orv[x] by {
            assert(orv.push(jr.as_recipe())[x] == orv[x]);
        }
        assert(nrv[orv.len() as int] == jr.as_recipe());
        // Unique identifiers among the entries.
        assert forall|i: int, j: int|
            0 <= i < j < self.recipes@.len() implies self.recipes@[i].id@ != self.recipes@[j].id@ by {
            assert(self.recipes@[i].id@ == nrv[i].id);
            assert(self.recipes@[j].id@ == nrv[j].id);
            if j < orv.len() {
                assert(nrv[i].id == old_store.recipes@[i].id@);
                assert(nrv[j].id == old_store.recipes@[j].id@);
            } else {
                assert(nrv[j] == jr.as_recipe());
                assert(nrv[i].id == old_store.recipes@[i].id@);
                if nrv[i].id == jr.id {
                    assert(old_store.has_id(jr.id));
                }
            }
        }
        // Every new pair carries the fresh identifier; old pairs do not.
        assert forall|k: int| 0 <= k < opv.len() implies opv[k].0 != jr.id by {
            assert(old_store.has_id(opv[k].0));
            if opv[k].0 == jr.id {
                assert(old_store.has_id(jr.id));
            }
        }
        lemma_dedup_distinct(jr.tags);
        // Unique association pairs.
        assert forall|i: int, j: int|
            0 <= i < j < self.tags@.len() implies npv[i] != npv[j] by {
            if j < opv.len() {
                assert(npv[i] == opv[i] && npv[j] == opv[j]);
            } else if i < opv.len() {
                assert(npv[i] == opv[i]);
                assert(npv[j] == added[j - opv.len()]);
                assert(npv[j].0 == jr.id);
            } else {
                assert(npv[i] == added[i - opv.len()]);
                assert(npv[j] == added[j - opv.len()]);
                assert(dedup(jr.tags)[i - opv.len()] != dedup(jr.tags)[j - opv.len()]);
            }
        }
        // Every association refers to a stored entry.
        assert forall|k: int| 0 <= k < self.tags@.len() implies self.has_id(npv[k].0) by {
            if k < opv.len() {
                assert(npv[k] == opv[k]);
                assert(old_store.has_id(opv[k].0));
                let i = choose|i: int|
                    0 <= i < old_store.recipes@.len() && old_store.recipes@[i].id@ == opv[k].0;
                assert(self.recipes@[i].id@ == nrv[i].id);
                assert(nrv[i] == orv[i]);
            } else {
                assert(npv[k] == added[k - opv.len()]);
                assert(npv[k].0 == jr.id);
                let last = self.recipes@.len() - 1;
                assert(self.recipes@[last].id@ == nrv[last].id);
                assert(nrv[last] == jr.as_recipe());
            }
        }
    }

    /// Insertion followed by point lookup is exact: after `add` of an
    /// entry with a fresh identifier (the state relation its contract
    /// gives), the new entry is stored under its identifier and its
    /// stored tag list is exactly the deduplicated input tag list —
    /// `lemma_dedup_contains` and `lemma_dedup_distinct` pin that list
    /// down to the input tag set.
    pub proof fn lemma_tags_after_add(self, old_store: RecipeStore, jr: JsonRecipeView)
        requires
            old_store.wf(),
            !old_store.has_id(jr.id),
            self.recipes@.map_values(|x: Recipe| x@) == old_store.recipes@.map_values(
                |x: Recipe| x@,
            ).push(jr.as_recipe()),
            pair_views(self.tags@) == pair_views(old_store.tags@) + dedup(jr.tags).map_values(
                |t: Seq<char>| (jr.id, t),
            ),
        ensures
            self.wf(),
            self.has_id(jr.id),
            self.entry_with(jr.id) == jr.as_recipe(),
            self.tags_of(jr.id) == dedup(jr.tags),
    {
        self.lemma_add_preserves_wf(old_store, jr);
        let orv = old_store.recipes@.map_values(|x: Recipe| x@);
        let nrv = self.recipes@.map_values(|x: Recipe| x@);
        let opv = pair_views(old_store.tags@);
        let npv = pair_views(self.tags@);
        let added = dedup(jr.tags).map_values(|t: Seq<char>| (jr.id, t));
        assert(nrv.len() == orv.len() + 1);
        assert(self.recipes@.len() == nrv.len());
        let last = self.recipes@.len() - 1;
        assert(nrv[last] == orv.push(jr.as_recipe())[last]);
        assert(nrv[last] == jr.as_recipe());
        assert(self.recipes@[last].id@ == nrv[last].id);
        assert(self.has_id(jr.id));
        self.lemma_entry_with_exact(last);
        assert(self.recipes@[last]@ == nrv[last]);
        // The stored tag rows of the fresh identifier are exactly the
        // appended ones.
        assert forall|k: int| 0 <= k < opv.len() implies opv[k].0 != jr.id by {
            assert(old_store.has_id(opv[k].0));
            if opv[k].0 == jr.id {
                assert(old_store.has_id(jr.id));
            }
        }
        lemma_assoc_tags_append(opv, added, jr.id);
        lemma_assoc_tags_none(opv, jr.id);
        lemma_assoc_tags_all(dedup(jr.tags), jr.id);
        assert(self.tags_of(jr.id) =~= assoc_tags(opv, jr.id) + assoc_tags(added, jr.id));
        assert(Seq::<Seq<char>>::empty() + dedup(jr.tags) =~= dedup(jr.tags));
    }
}

/// Whether some element of `v` equals `s`, character-wise.
#[verifier::loop_isolation(false)]
pub fn contains_str(v: &Vec<String>, s: &str) -> (r: bool)
    ensures
        r == v@.map_values(|t: String| t@).contains(s@),
{
    let ghost m = v@.map_values(|t: String| t@);
    let n = v.len();
    let mut i: usize = 0;
    while i < n
        invariant
            n == v@.len(),
            m == v@.map_values(|t: String| t@),
            i <= n,
            forall|k: int| 0 <= k < i ==> m[k] != s@,
        decreases n - i,
    {
        if str_eq(v[i].as_str(), s) {
            proof {
                assert(m[i as int] == s@);
            }
            return true;
        }
        i += 1;
    }
    proof {
        if m.contains(s@) {
            let k = choose|k: int| 0 <= k < m.len() && m[k] == s@;
        }
    }
    false
}

} // verus!
