use cortex_rs::models::{default_entity_type, default_json_object, default_recall_limit, default_search_limit, default_space, default_token_budget};
use cortex_rs::runtime::CortexRuntime;

#[test]
fn defaults_match_the_documented_values() {
    assert_eq!(default_space(), "atlas-memory");
    assert_eq!(default_entity_type(), "discovery");
    assert_eq!(default_json_object(), "{}");
    assert_eq!(default_search_limit(), Some(12));
    assert_eq!(default_recall_limit(), 5);
    assert_eq!(default_token_budget(), 1200);
}

#[test]
fn runtime_in_memory_starts_empty() {
    let rt = CortexRuntime::in_memory().expect("runtime");
    let found = rt.database().search_entities("", None, 10).expect("search");
    assert!(found.is_empty());
}
