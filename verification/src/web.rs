//! The HTML page dispatch rules: which entry the front page shows or
//! redirects to, given the request's query parameters, and how the
//! "currently displayed entry" slot is updated.  Rendering and the
//! redirect encoding live with the caller.

use vstd::prelude::*;

use crate::AppState;
use crate::recipe::{Recipe, RecipeStore};
use crate::strutil::{join_strings, join_with};
use crate::tags::{normalize_spec, normalize_tags};

verus! {

/// Query parameters for retrieving an entry: a direct identifier, or a
/// comma-separated tag filter.
pub struct GetRecipeParams {
    pub id: Option<String>,
    pub tags: Option<String>,
}

/// What the front page does for a request: render an entry with its
/// comma-joined tag string, redirect to an entry's page, or report that
/// the requested entry does not exist.
pub enum PageAction {
    Show { recipe: Recipe, tags: String },
    Redirect { id: String },
    NotFound,
}

/// The outcome of the uniform-random fallback: a redirect to some
/// stored entry, or — when the store is empty — the previously
/// displayed entry rendered with the tag string `"Empty"`.
pub open spec fn random_fallback(store: RecipeStore, current: Recipe, r: PageAction) -> bool {
    &&& store.recipes@.len() > 0 ==> (r matches PageAction::Redirect { id } && store.has_id(id@))
    &&& store.recipes@.len() == 0 ==> (r matches PageAction::Show { recipe, tags } && recipe@
        == current@ && tags@ == "Empty"@)
}

/// Serves the front page: an explicit identifier is fetched and
/// rendered (and becomes the currently displayed entry); otherwise a
/// tag filter is normalized and a random match is redirected to;
/// otherwise — also when the filter matches nothing — a uniformly
/// random entry is redirected to, with the previously displayed entry
/// re-rendered when the store is empty.
pub fn get_recipe(app_state: &mut AppState, params: GetRecipeParams) -> (r: PageAction)
    requires
        old(app_state).store.wf(),
    ensures
        final(app_state).store == old(app_state).store,
        final(app_state).jwt_keys == old(app_state).jwt_keys,
        final(app_state).reg_key == old(app_state).reg_key,
        params.id matches Some(id) ==> ({
            &&& old(app_state).store.has_id(id@) ==> (r matches PageAction::Show { recipe, tags }
                && recipe@ == old(app_state).store.entry_with(id@) && tags@ == join_with(
                old(app_state).store.tags_of(id@),
                ", "@,
            ) && final(app_state).current_recipe@ == old(app_state).store.entry_with(id@))
            &&& !old(app_state).store.has_id(id@) ==> r is NotFound && *final(app_state) == *old(
                app_state,
            )
        }),
        params.id is None ==> (params.tags matches Some(t) ==> ({
            let f = normalize_spec(t@);
            &&& *final(app_state) == *old(app_state)
            &&& old(app_state).store.some_match(f) ==> (r matches PageAction::Redirect { id }
                && old(app_state).store.has_id(id@) && old(app_state).store.id_matches(f, id@))
            &&& !old(app_state).store.some_match(f) ==> random_fallback(
                old(app_state).store,
                old(app_state).current_recipe,
                r,
            )
        })),
        (params.id is None && params.tags is None) ==> *final(app_state) == *old(app_state)
            && random_fallback(old(app_state).store, old(app_state).current_recipe, r),
{
    if let Some(id) = params.id {
        return match app_state.store.get(id.as_str()) {
            Ok((recipe, tag_list)) => {
                let tag_string = join_strings(&tag_list, ", ");
                app_state.current_recipe = recipe.clone();
                PageAction::Show { recipe, tags: tag_string }
            },
            Err(_) => PageAction::NotFound,
        };
    }
    if let Some(t) = params.tags {
        let filter = normalize_tags(t.as_str());
        if let Some(id) = app_state.store.get_tagged(&filter) {
            return PageAction::Redirect { id };
        }
    }
    match app_state.store.get_random() {
        Ok(id) => PageAction::Redirect { id },
        Err(_) => {
            let recipe = app_state.current_recipe.clone();
            PageAction::Show { recipe, tags: "Empty".to_owned() }
        },
    }
}

} // verus!
