use recipe_server::api::{get_random_recipe, get_recipe_by_id, get_tagged_recipe};
use recipe_server::recipe::{JsonRecipe, Recipe, RecipeStore, StoreError};
use recipe_server::tags::normalize_tags;

fn entry(id: &str, tags: &[&str]) -> JsonRecipe {
    JsonRecipe {
        id: id.to_string(),
        dish_name: format!("dish-{id}"),
        ingredients: format!("ingredients-{id}"),
        time_to_prepare: "30 minutes".to_string(),
        tags: tags.iter().map(|t| t.to_string()).collect(),
        source: format!("https://example.com/{id}"),
    }
}

fn two_entry_store() -> RecipeStore {
    let mut store = RecipeStore::new();
    store.add(entry("A", &["dad", "short"])).unwrap();
    store.add(entry("B", &["dad", "long"])).unwrap();
    store
}

#[test]
fn fetch_by_id_returns_entry_and_exact_tags() {
    let store = two_entry_store();
    let (recipe, tags) = store.get("A").unwrap();
    assert_eq!(recipe.id, "A");
    assert_eq!(recipe.dish_name, "dish-A");
    assert_eq!(recipe.ingredients, "ingredients-A");
    assert_eq!(recipe.time_to_prepare, "30 minutes");
    assert_eq!(recipe.source, "https://example.com/A");
    assert_eq!(tags, vec!["dad".to_string(), "short".to_string()]);
}

#[test]
fn fetch_by_id_is_idempotent() {
    let store = two_entry_store();
    let (first, first_tags) = store.get("B").unwrap();
    let (second, second_tags) = store.get("B").unwrap();
    assert_eq!(first.id, second.id);
    assert_eq!(first.dish_name, second.dish_name);
    assert_eq!(first.ingredients, second.ingredients);
    assert_eq!(first.time_to_prepare, second.time_to_prepare);
    assert_eq!(first.source, second.source);
    assert_eq!(first_tags, second_tags);
}

#[test]
fn fetch_by_id_misses_with_not_found() {
    let store = two_entry_store();
    match store.get("C") {
        Err(StoreError::NotFound) => {}
        other => panic!("expected NotFound, got {other:?}", other = other.map(|_| ())),
    }
}

#[test]
fn fetch_random_on_empty_store_is_empty() {
    let store = RecipeStore::new();
    assert_eq!(store.get_random(), Err(StoreError::Empty));
}

#[test]
fn fetch_random_always_yields_a_stored_identifier() {
    let store = two_entry_store();
    for _ in 0..50 {
        let id = store.get_random().unwrap();
        assert!(id == "A" || id == "B");
    }
}

#[test]
fn fetch_by_tags_intersecting_filter_yields_matching_entry() {
    let store = two_entry_store();
    for _ in 0..50 {
        let id = store.get_tagged(&vec!["dad".to_string()]).unwrap();
        assert!(id == "A" || id == "B");
        let (_, tags) = store.get(&id).unwrap();
        assert!(tags.contains(&"dad".to_string()));
    }
}

#[test]
fn fetch_by_tags_unique_match_yields_it() {
    let store = two_entry_store();
    assert_eq!(store.get_tagged(&vec!["short".to_string()]), Some("A".to_string()));
    assert_eq!(store.get_tagged(&vec!["long".to_string()]), Some("B".to_string()));
}

#[test]
fn fetch_by_tags_without_match_is_no_match() {
    let store = two_entry_store();
    assert_eq!(store.get_tagged(&vec!["nonexistent".to_string()]), None);
    assert_eq!(store.get_tagged(&Vec::new()), None);
}

#[test]
fn fetch_by_tags_empty_store_is_no_match() {
    let store = RecipeStore::new();
    assert_eq!(store.get_tagged(&vec!["dad".to_string()]), None);
}

#[test]
fn normalization_strips_and_folds_and_splits() {
    let tags = normalize_tags("Fun!!,  Easy2");
    assert_eq!(tags, vec!["fun".to_string(), "easy".to_string()]);
}

#[test]
fn normalization_passes_empty_segments_through() {
    assert_eq!(
        normalize_tags("a,,b"),
        vec!["a".to_string(), String::new(), "b".to_string()]
    );
    assert_eq!(normalize_tags(""), vec![String::new()]);
    assert_eq!(normalize_tags("123!?"), vec![String::new()]);
}

#[test]
fn normalized_filter_reaches_the_store() {
    let store = two_entry_store();
    let filter = normalize_tags("Short!");
    assert_eq!(store.get_tagged(&filter), Some("A".to_string()));
}

#[test]
fn api_fetch_by_tags_normalizes_the_filter() {
    let store = two_entry_store();
    let json = get_tagged_recipe(&store, "Short").unwrap();
    assert_eq!(json.id, "A");
    let json = get_tagged_recipe(&store, "Fun!!,  Long2").unwrap();
    assert_eq!(json.id, "B");
    for _ in 0..20 {
        let json = get_tagged_recipe(&store, "DAD").unwrap();
        assert!(json.id == "A" || json.id == "B");
    }
}

#[test]
fn add_rejects_duplicate_identifier_and_keeps_store() {
    let mut store = two_entry_store();
    let result = store.add(entry("A", &["other"]));
    assert_eq!(result, Err(StoreError::Conflict));
    let (recipe, tags) = store.get("A").unwrap();
    assert_eq!(recipe.dish_name, "dish-A");
    assert_eq!(tags, vec!["dad".to_string(), "short".to_string()]);
}

#[test]
fn add_deduplicates_tags() {
    let mut store = RecipeStore::new();
    store.add(entry("X", &["x", "x", "y", "x"])).unwrap();
    let (_, tags) = store.get("X").unwrap();
    assert_eq!(tags, vec!["x".to_string(), "y".to_string()]);
}

#[test]
fn api_fetch_by_id_builds_json_record() {
    let store = two_entry_store();
    let json = get_recipe_by_id(&store, "A").unwrap();
    assert_eq!(json.id, "A");
    assert_eq!(json.dish_name, "dish-A");
    assert_eq!(json.tags, vec!["dad".to_string(), "short".to_string()]);
    match get_recipe_by_id(&store, "missing") {
        Err(StoreError::NotFound) => {}
        other => panic!("expected NotFound, got {other:?}", other = other.map(|_| ())),
    }
}

#[test]
fn api_fetch_by_tags_and_random() {
    let store = two_entry_store();
    let json = get_tagged_recipe(&store, "short").unwrap();
    assert_eq!(json.id, "A");
    match get_tagged_recipe(&store, "none") {
        Err(StoreError::NotFound) => {}
        other => panic!("expected NotFound, got {other:?}", other = other.map(|_| ())),
    }
    let json = get_random_recipe(&store).unwrap();
    assert!(json.id == "A" || json.id == "B");
    match get_random_recipe(&RecipeStore::new()) {
        Err(StoreError::Empty) => {}
        other => panic!("expected Empty, got {other:?}", other = other.map(|_| ())),
    }
}

#[test]
fn json_recipe_round_trip() {
    let recipe = Recipe {
        id: "r".to_string(),
        dish_name: "n".to_string(),
        ingredients: "i".to_string(),
        time_to_prepare: "t".to_string(),
        source: "s".to_string(),
    };
    let json = JsonRecipe::new(recipe, vec!["a".to_string(), "b".to_string()]);
    let (back, tags) = json.to_recipe();
    assert_eq!(back.id, "r");
    assert_eq!(back.dish_name, "n");
    assert_eq!(back.ingredients, "i");
    assert_eq!(back.time_to_prepare, "t");
    assert_eq!(back.source, "s");
    assert_eq!(tags, vec!["a".to_string(), "b".to_string()]);
}
