use recipe_server::AppState;
use recipe_server::authjwt::JwtKeys;
use recipe_server::recipe::{JsonRecipe, RecipeStore};
use recipe_server::web::{GetRecipeParams, PageAction, get_recipe};

fn entry(id: &str, tags: &[&str]) -> JsonRecipe {
    JsonRecipe {
        id: id.to_string(),
        dish_name: format!("dish-{id}"),
        ingredients: "stuff".to_string(),
        time_to_prepare: "5 minutes".to_string(),
        tags: tags.iter().map(|t| t.to_string()).collect(),
        source: "https://example.com".to_string(),
    }
}

fn state_with_entries() -> AppState {
    let mut store = RecipeStore::new();
    store.add(entry("A", &["dad", "short"])).unwrap();
    store.add(entry("B", &["dad", "long"])).unwrap();
    AppState::new(store, JwtKeys::new(b"secret"), "correct".to_string())
}

#[test]
fn page_by_id_shows_entry_and_updates_current() {
    let mut state = state_with_entries();
    let params = GetRecipeParams { id: Some("A".to_string()), tags: None };
    match get_recipe(&mut state, params) {
        PageAction::Show { recipe, tags } => {
            assert_eq!(recipe.id, "A");
            assert_eq!(tags, "dad, short");
        }
        _ => panic!("expected the entry page"),
    }
    assert_eq!(state.current_recipe.id, "A");
}

#[test]
fn page_by_unknown_id_is_not_found() {
    let mut state = state_with_entries();
    let params = GetRecipeParams { id: Some("Z".to_string()), tags: None };
    assert!(matches!(get_recipe(&mut state, params), PageAction::NotFound));
    assert_eq!(state.current_recipe.id, "placeholder-id");
}

#[test]
fn page_by_tags_redirects_to_a_match() {
    let mut state = state_with_entries();
    let params = GetRecipeParams { id: None, tags: Some("Short!".to_string()) };
    match get_recipe(&mut state, params) {
        PageAction::Redirect { id } => assert_eq!(id, "A"),
        _ => panic!("expected a redirect"),
    }
}

#[test]
fn page_by_unmatched_tags_falls_back_to_random() {
    let mut state = state_with_entries();
    let params = GetRecipeParams { id: None, tags: Some("nonexistent".to_string()) };
    match get_recipe(&mut state, params) {
        PageAction::Redirect { id } => assert!(id == "A" || id == "B"),
        _ => panic!("expected a random redirect"),
    }
}

#[test]
fn page_without_params_redirects_to_random() {
    let mut state = state_with_entries();
    let params = GetRecipeParams { id: None, tags: None };
    match get_recipe(&mut state, params) {
        PageAction::Redirect { id } => assert!(id == "A" || id == "B"),
        _ => panic!("expected a random redirect"),
    }
}

#[test]
fn page_on_empty_store_shows_current_entry_with_empty_label() {
    let mut state = AppState::new(
        RecipeStore::new(),
        JwtKeys::new(b"secret"),
        "correct".to_string(),
    );
    let params = GetRecipeParams { id: None, tags: None };
    match get_recipe(&mut state, params) {
        PageAction::Show { recipe, tags } => {
            assert_eq!(recipe.id, "placeholder-id");
            assert_eq!(tags, "Empty");
        }
        _ => panic!("expected the fallback page"),
    }
}
