use cortex_rs::api::{embedding_text, handle_get, handle_search, handle_write, health_status, recall_limit, search_limit};
use cortex_rs::db::Database;
use cortex_rs::models::{EntityWriteInput, GetParams, RecallPayload, RetractInput, SearchParams, WritePayload};

fn lifecycle_input(name: &str, content: &str) -> EntityWriteInput {
    EntityWriteInput {
        id: None,
        space: "atlas-memory".to_string(),
        entity_type: "lesson".to_string(),
        canonical_name: name.to_string(),
        content: content.to_string(),
        aliases: vec![],
        metadata: "{}".to_string(),
        confidence: "1.0".to_string(),
        valid_from: None,
        valid_to: None,
        external_id: None,
    }
}

#[test]
fn test_get_handler_missing_parameter() {
    let db = Database::open_in_memory().expect("in memory db");
    let query = GetParams { id: None, name: None, space: None };
    let err = handle_get(&db, &query).unwrap_err();
    assert_eq!(err.status, 400);
    assert_eq!(err.message, "Missing id or name parameter");
}

#[test]
fn test_get_handler_not_found() {
    let db = Database::open_in_memory().expect("in memory db");
    let query = GetParams { id: Some("non_existent_uuid".to_string()), name: None, space: Some("atlas-memory".to_string()) };
    let err = handle_get(&db, &query).unwrap_err();
    assert_eq!(err.status, 404);
    assert_eq!(err.message, "Entity not found");
}

#[test]
fn test_get_handler_success_and_unknown_space() {
    let mut db = Database::open_in_memory().expect("in memory db");
    let mut input = lifecycle_input("test_entity_get", "Payload content");
    input.entity_type = "discovery".to_string();
    input.metadata = r#"{"key":"val"}"#.to_string();
    db.upsert_entity(&input, None).unwrap();

    // 1. Success fetch
    let query_ok = GetParams { id: None, name: Some("test_entity_get".to_string()), space: Some("atlas-memory".to_string()) };
    let resp = handle_get(&db, &query_ok);
    assert!(resp.is_ok());

    // 2. Unknown space fetch returns 404
    let query_unknown_space =
        GetParams { id: None, name: Some("test_entity_get".to_string()), space: Some("non_existent_space".to_string()) };
    let err_unknown = handle_get(&db, &query_unknown_space).unwrap_err();
    assert_eq!(err_unknown.status, 404);
}

#[test]
fn test_search_unknown_space_returns_empty() {
    let db = Database::open_in_memory().expect("in memory db");
    let params = SearchParams {
        q: Some("anything".to_string()),
        query: None,
        space: Some("completely_unknown_space_slug".to_string()),
        limit: Some(10),
        include_retracted: Some(false),
    };
    let res = handle_search(&db, &params).unwrap();
    assert_eq!(res.len(), 0);
}

#[test]
fn test_write_entity_and_retract_lifecycle() {
    let mut db = Database::open_in_memory().expect("in memory db");

    // 1. Write entity (no encoder running: stored without an embedding)
    let write_payload = WritePayload::Entity { value: lifecycle_input("lifecycle_test", "Lifecycle verification") };
    let write_res = handle_write(&mut db, &write_payload, None);
    assert!(write_res.is_ok());

    let entity = db.get_entity("lifecycle_test", Some("atlas-memory")).unwrap().unwrap();
    assert_eq!(entity.canonical_name, "lifecycle_test");

    // 2. Retract entity
    let retract_payload = WritePayload::Retract {
        value: RetractInput {
            target_type: "entity".to_string(),
            target_id: entity.id.clone(),
            reason: Some("Obsolescence".to_string()),
        },
    };
    let retract_res = handle_write(&mut db, &retract_payload, None);
    assert!(retract_res.is_ok());

    let after = db.get_entity("lifecycle_test", Some("atlas-memory")).unwrap();
    assert!(after.is_none());
}

#[test]
fn test_health_handler_structure() {
    let health = health_status();
    assert_eq!(health.status, "ok");
    assert_eq!(health.service, "cortex-rs");
    assert_eq!(health.space, "atlas-memory");
}

#[test]
fn request_limits_are_capped() {
    let mut params = SearchParams { q: None, query: Some("x".to_string()), space: None, limit: None, include_retracted: None };
    assert_eq!(search_limit(&params), 12);
    params.limit = Some(500);
    assert_eq!(search_limit(&params), 50);
    let payload = RecallPayload { query: "q".to_string(), space: None, limit: 99, token_budget: 1200 };
    assert_eq!(recall_limit(&payload), 20);
}

#[test]
fn embedding_text_joins_name_and_content() {
    assert_eq!(embedding_text("Name", "Body"), "Name: Body");
    assert_eq!(embedding_text("Name", "  \n"), "Name");
}

#[test]
fn embed_url_drops_trailing_slashes() {
    assert_eq!(cortex_rs::api::embed_url("http://127.0.0.1:8080//"), "http://127.0.0.1:8080/embed");
    assert_eq!(cortex_rs::api::embed_url("http://h"), "http://h/embed");
}
