//! The logical API operations: point fetch, tag-filtered fetch, random
//! fetch, and the credential-gated insertion.  Transport and encoding
//! live with the caller; these functions take and return plain values.

use vstd::prelude::*;

use crate::AppState;
use crate::authjwt::{AuthError, claims_in_token, extract_bearer, validate_token};
use crate::recipe::{
    JsonRecipe, Recipe, RecipeStore, StoreError, dedup, pair_views,
};
use crate::tags::{normalize_spec, normalize_tags};

verus! {

/// Why an insertion request was rejected: the credential gate failed,
/// or the store reported a conflict.
#[derive(Debug, Clone, Copy, PartialEq, Eq, Structural)]
pub enum AddRecipeError {
    /// The bearer credential was absent, malformed, or failed
    /// verification.
    Auth(AuthError),
    /// The store rejected the new entry.
    Store(StoreError),
}

/// Fetches an entry and its tags by identifier, as one JSON-facing
/// record; `NotFound` exactly when no entry has the identifier.
pub fn get_recipe_by_id(store: &RecipeStore, recipe_id: &str) -> (r: Result<
    JsonRecipe,
    StoreError,
>)
    requires
        store.wf(),
    ensures
        r is Ok <==> store.has_id(recipe_id@),
        r matches Ok(j) ==> j@.id == recipe_id@ && j@.as_recipe() == store.entry_with(recipe_id@)
            && j@.tags == store.tags_of(recipe_id@),
        r matches Err(e) ==> e == StoreError::NotFound,
{
    match store.get(recipe_id) {
        Ok((recipe, tags)) => Ok(JsonRecipe::new(recipe, tags)),
        Err(e) => Err(e),
    }
}

/// Fetches one entry whose tag set intersects the caller's tag filter,
/// drawn at random among the matches; `NotFound` exactly when no entry
/// matches.  The filter is a comma-joined tag string, normalized at
/// this query boundary: non-alphabetic characters are stripped, the
/// rest is lower-cased and split on commas.
pub fn get_tagged_recipe(store: &RecipeStore, tags: &str) -> (r: Result<JsonRecipe, StoreError>)
    requires
        store.wf(),
    ensures
        r is Ok <==> store.some_match(normalize_spec(tags@)),
        r matches Ok(j) ==> store.id_matches(normalize_spec(tags@), j@.id) && j@.as_recipe()
            == store.entry_with(j@.id) && j@.tags == store.tags_of(j@.id),
        r matches Err(e) ==> e == StoreError::NotFound,
{
    let filter = normalize_tags(tags);
    match store.get_tagged(&filter) {
        Some(recipe_id) => get_recipe_by_id(store, recipe_id.as_str()),
        None => Err(StoreError::NotFound),
    }
}

/// Fetches a uniformly random entry; `Empty` exactly when the store
/// holds no entries.
pub fn get_random_recipe(store: &RecipeStore) -> (r: Result<JsonRecipe, StoreError>)
    requires
        store.wf(),
    ensures
        r is Ok <==> store.recipes@.len() > 0,
        r matches Ok(j) ==> store.has_id(j@.id) && j@.as_recipe() == store.entry_with(j@.id)
            && j@.tags == store.tags_of(j@.id),
        r matches Err(e) ==> e == StoreError::Empty,
{
    match store.get_random() {
        Ok(recipe_id) => get_recipe_by_id(store, recipe_id.as_str()),
        Err(e) => Err(e),
    }
}

/// Adds an entry to the store, gated on a currently-valid bearer token
/// in the authorization header.  Any credential failure — absent or
/// non-Bearer header (`InvalidToken`), a token the decoder rejects, or
/// one whose expiry has passed (`Registration`) — rejects the request
/// before the store is touched, leaving the state unchanged; success
/// happens only under a token the decoder accepts with an unexpired
/// claim set.  With such a token the insertion is atomic: either the
/// entry and its deduplicated tag rows are recorded, or a `Conflict` on
/// an already-present identifier leaves the store unchanged.
pub fn add_recipe(
    appstate: &mut AppState,
    auth_header: Option<&str>,
    now: u64,
    recipe: JsonRecipe,
) -> (r: Result<(), AddRecipeError>)
    requires
        old(appstate).store.wf(),
    ensures
        final(appstate).store.wf(),
        final(appstate).jwt_keys == old(appstate).jwt_keys,
        final(appstate).reg_key == old(appstate).reg_key,
        final(appstate).current_recipe == old(appstate).current_recipe,
        (r matches Err(e) && e matches AddRecipeError::Auth(_)) ==> *final(appstate) == *old(
            appstate,
        ),
        auth_header is None ==> r == Err::<(), AddRecipeError>(
            AddRecipeError::Auth(AuthError::InvalidToken),
        ),
        (auth_header matches Some(h) && !(h@.len() >= 7 && h@.subrange(0, 7) == "Bearer "@))
            ==> r == Err::<(), AddRecipeError>(AddRecipeError::Auth(AuthError::InvalidToken)),
        auth_header matches Some(h) ==> (h@.len() >= 7 && h@.subrange(0, 7) == "Bearer "@ ==> ({
            let ci = claims_in_token(h@.skip(7), old(appstate).jwt_keys@);
            &&& ci is None ==> r == Err::<(), AddRecipeError>(
                AddRecipeError::Auth(AuthError::Registration),
            )
            &&& (ci matches Some(c) && c.2 <= now) ==> r == Err::<(), AddRecipeError>(
                AddRecipeError::Auth(AuthError::Registration),
            )
            &&& (ci matches Some(c) && c.2 > now && old(appstate).store.has_id(recipe@.id)) ==> r
                == Err::<(), AddRecipeError>(AddRecipeError::Store(StoreError::Conflict))
            &&& (ci matches Some(c) && c.2 > now && !old(appstate).store.has_id(recipe@.id))
                ==> r is Ok
        })),
        r matches Err(e) ==> (e matches AddRecipeError::Store(se) ==> (se == StoreError::Conflict
            && old(appstate).store.has_id(recipe@.id) && *final(appstate) == *old(appstate))),
        r is Ok ==> (auth_header matches Some(h) && h@.len() >= 7 && h@.subrange(0, 7)
            == "Bearer "@ && (claims_in_token(h@.skip(7), old(appstate).jwt_keys@) matches Some(c)
            && c.2 > now)),
        r is Ok ==> ({
            let oldst = old(appstate).store;
            let newst = final(appstate).store;
            &&& !oldst.has_id(recipe@.id)
            &&& newst.recipes@.map_values(|x: Recipe| x@) == oldst.recipes@.map_values(
                |x: Recipe| x@,
            ).push(recipe@.as_recipe())
            &&& pair_views(newst.tags@) == pair_views(oldst.tags@) + dedup(
                recipe@.tags,
            ).map_values(|t: Seq<char>| (recipe@.id, t))
        }),
{
    let header = match auth_header {
        None => {
            return Err(AddRecipeError::Auth(AuthError::InvalidToken));
        },
        Some(h) => h,
    };
    let token = match extract_bearer(header) {
        None => {
            return Err(AddRecipeError::Auth(AuthError::InvalidToken));
        },
        Some(t) => t,
    };
    match validate_token(token.as_str(), &appstate.jwt_keys, now) {
        Err(e) => Err(AddRecipeError::Auth(e)),
        Ok(_claims) => match appstate.store.add(recipe) {
            Ok(()) => Ok(()),
            Err(se) => Err(AddRecipeError::Store(se)),
        },
    }
}

} // verus!
