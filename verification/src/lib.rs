//! A small tagged-content server library: an entry store with point,
//! random and tag-filtered lookup, and a shared-secret registration flow
//! that issues and validates signed bearer tokens.
//!
//! The store and the credential gate are the verified core; transport,
//! rendering and persistence plumbing live with the caller, which hands
//! this library plain values and receives plain values back.

use vstd::prelude::*;

pub mod api;
pub mod authjwt;
pub mod error;
pub mod joke;
pub mod recipe;
pub mod strutil;
pub mod tags;
pub mod web;

use crate::authjwt::JwtKeys;
use crate::recipe::{Recipe, RecipeStore};

verus! {

/// The shared per-process session state: the entry store, the signing
/// secret, the shared registration secret, and the "currently displayed
/// entry" slot used by the presentation layer.
pub struct AppState {
    /// The entry store.
    pub store: RecipeStore,
    /// The token signing and verification secret.
    pub jwt_keys: JwtKeys,
    /// The process-wide shared registration password.
    pub reg_key: String,
    /// The entry most recently displayed by the presentation layer.
    pub current_recipe: Recipe,
}

impl AppState {
    /// Assembles the session state around a store and the two secrets,
    /// with a placeholder as the initially displayed entry.
    pub fn new(store: RecipeStore, jwt_keys: JwtKeys, reg_key: String) -> (r: Self)
        ensures
            r.store == store,
            r.jwt_keys == jwt_keys,
            r.reg_key@ == reg_key@,
            r.current_recipe.id@ == "placeholder-id"@,
            r.current_recipe.dish_name@ == "Sample Dish"@,
            r.current_recipe.ingredients@ == "example ingredient1, ingredient2"@,
            r.current_recipe.time_to_prepare@ == "30 minutes"@,
            r.current_recipe.source@ == "https://example.com"@,
    {
        let current_recipe = Recipe {
            id: "placeholder-id".to_owned(),
            dish_name: "Sample Dish".to_owned(),
            ingredients: "example ingredient1, ingredient2".to_owned(),
            time_to_prepare: "30 minutes".to_owned(),
            source: "https://example.com".to_owned(),
        };
        AppState { store, jwt_keys, reg_key, current_recipe }
    }
}

} // verus!
