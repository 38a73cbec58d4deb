use recipe_server::AppState;
use recipe_server::api::{AddRecipeError, add_recipe};
use recipe_server::authjwt::{AuthError, JwtKeys, Registration, make_jwt_token_at};
use recipe_server::recipe::{JsonRecipe, RecipeStore, StoreError};

fn test_state() -> AppState {
    AppState::new(
        RecipeStore::new(),
        JwtKeys::new(b"jwt-signing-secret"),
        "correct".to_string(),
    )
}

fn entry(id: &str) -> JsonRecipe {
    JsonRecipe {
        id: id.to_string(),
        dish_name: "dish".to_string(),
        ingredients: "stuff".to_string(),
        time_to_prepare: "5 minutes".to_string(),
        tags: vec!["quick".to_string()],
        source: "https://example.com".to_string(),
    }
}

fn issue_header(state: &AppState, now: u64) -> String {
    let registration = Registration {
        full_name: "Jo".to_string(),
        email: "jo@example.org".to_string(),
        password: "correct".to_string(),
    };
    let body = make_jwt_token_at(state, &registration, now).unwrap();
    format!("Bearer {}", body.access_token)
}

#[test]
fn add_without_header_is_rejected_before_any_write() {
    let mut state = test_state();
    let result = add_recipe(&mut state, None, 1000, entry("A"));
    assert_eq!(result, Err(AddRecipeError::Auth(AuthError::InvalidToken)));
    assert_eq!(state.store.get_random(), Err(StoreError::Empty));
}

#[test]
fn add_with_malformed_header_is_rejected_before_any_write() {
    let mut state = test_state();
    let result = add_recipe(&mut state, Some("Basic dXNlcg=="), 1000, entry("A"));
    assert_eq!(result, Err(AddRecipeError::Auth(AuthError::InvalidToken)));
    assert_eq!(state.store.get_random(), Err(StoreError::Empty));
}

#[test]
fn add_with_garbage_token_is_rejected_before_any_write() {
    let mut state = test_state();
    let result = add_recipe(&mut state, Some("Bearer no.good.token"), 1000, entry("A"));
    assert_eq!(result, Err(AddRecipeError::Auth(AuthError::Registration)));
    assert_eq!(state.store.get_random(), Err(StoreError::Empty));
}

#[test]
fn add_with_wrongly_signed_token_is_rejected_before_any_write() {
    let mut state = test_state();
    let other_state = AppState::new(
        RecipeStore::new(),
        JwtKeys::new(b"a-different-secret"),
        "correct".to_string(),
    );
    let header = issue_header(&other_state, 1000);
    let result = add_recipe(&mut state, Some(&header), 2000, entry("A"));
    assert_eq!(result, Err(AddRecipeError::Auth(AuthError::Registration)));
    assert_eq!(state.store.get_random(), Err(StoreError::Empty));
}

#[test]
fn add_with_expired_token_is_rejected_before_any_write() {
    let mut state = test_state();
    let header = issue_header(&state, 1000);
    let later = 1000 + 86400 + 10;
    let result = add_recipe(&mut state, Some(&header), later, entry("A"));
    assert_eq!(result, Err(AddRecipeError::Auth(AuthError::Registration)));
    assert_eq!(state.store.get_random(), Err(StoreError::Empty));
}

#[test]
fn add_with_valid_token_records_the_entry() {
    let mut state = test_state();
    let header = issue_header(&state, 1000);
    let result = add_recipe(&mut state, Some(&header), 2000, entry("A"));
    assert_eq!(result, Ok(()));
    let (recipe, tags) = state.store.get("A").unwrap();
    assert_eq!(recipe.dish_name, "dish");
    assert_eq!(tags, vec!["quick".to_string()]);
}

#[test]
fn add_duplicate_with_valid_token_reports_conflict() {
    let mut state = test_state();
    let header = issue_header(&state, 1000);
    assert_eq!(add_recipe(&mut state, Some(&header), 2000, entry("A")), Ok(()));
    let result = add_recipe(&mut state, Some(&header), 2000, entry("A"));
    assert_eq!(result, Err(AddRecipeError::Store(StoreError::Conflict)));
}
