use cortex_rs::db::{full_text_section, Database};
use cortex_rs::models::{ClaimWriteInput, EntityWriteInput, LexicalBasis, LexicalMatch};
use cortex_rs::ranking::rank_by_keys;

fn entity_input(name: &str, content: &str, entity_type: &str, aliases: Vec<String>, metadata: &str, confidence: &str) -> EntityWriteInput {
    EntityWriteInput {
        id: None,
        space: "atlas-memory".to_string(),
        entity_type: entity_type.to_string(),
        canonical_name: name.to_string(),
        content: content.to_string(),
        aliases,
        metadata: metadata.to_string(),
        confidence: confidence.to_string(),
        valid_from: None,
        valid_to: None,
        external_id: None,
    }
}

fn embedding_bytes(v: &[f32]) -> Vec<u8> {
    let mut bytes = Vec::with_capacity(v.len() * 4);
    for f in v {
        bytes.extend_from_slice(&f.to_le_bytes());
    }
    bytes
}

fn names(rs: &[cortex_rs::models::SearchResult]) -> Vec<String> {
    rs.iter().map(|r| r.entity.canonical_name.clone()).collect()
}

#[test]
fn test_in_memory_db_crud() {
    let mut db = Database::open_in_memory().expect("open in memory");

    let input = entity_input(
        "test_cortex_rebuild",
        "Testing the native Rust cortex-rs database engine",
        "discovery",
        vec!["cortex_test".to_string()],
        r#"{"test":true}"#,
        "1.0",
    );

    let dummy_emb = embedding_bytes(&vec![0.5f32; 768]);
    let receipt = db.upsert_entity(&input, Some(&dummy_emb)).expect("upsert entity");
    assert_eq!(receipt.operation, "entity.upsert");

    let fetched = db.get_entity("test_cortex_rebuild", Some("atlas-memory")).expect("get entity");
    assert!(fetched.is_some());
    let entity = fetched.unwrap();
    assert_eq!(entity.canonical_name, "test_cortex_rebuild");
    assert_eq!(entity.aliases.len(), 1);

    let search_results = db.search_entities("Rust", Some("atlas-memory"), 10).expect("search");
    assert!(!search_results.is_empty());
    assert_eq!(search_results[0].entity.canonical_name, "test_cortex_rebuild");

    let recall = db.recall_candidates("Rust", Some("atlas-memory")).expect("recall");
    assert!(!recall.is_empty());
    assert_eq!(recall[0].lexical, LexicalMatch::Content);
    assert_eq!(recall[0].embedding.as_deref(), Some(dummy_emb.as_slice()));
}

#[test]
fn test_fts5_exact_prefix_boolean_and_ranking() {
    let mut db = Database::open_in_memory().expect("open in memory db");

    let items = vec![
        ("NVFP4_Loader", "High throughput native NVFP4 checkpoint loader for vLLM and MAX", "discovery"),
        ("Qwen3_Parser", "Llama cpp tokenizer and grammar parser for Qwen3 models", "learned_procedure"),
        ("TPM_Vault", "Hardware TPM bound key vault with zero plaintext secrets on disk", "lesson"),
        ("Sovereign_Covenant", "Frontier AI Anti Enclosure mandate and sovereign defense network", "discovery"),
        ("Memory_Optimizer", "Memory architecture optimization for memory engines with memory reuse", "lesson"),
    ];

    for (name, content, etype) in items {
        let input = entity_input(name, content, etype, vec![], "{}", "1.0");
        db.upsert_entity(&input, None).expect("insert entity");
    }

    // 1. Exact term matching
    let exact_res = db.search_entities("NVFP4", Some("atlas-memory"), 10).expect("search exact");
    assert_eq!(exact_res.len(), 1);
    assert_eq!(exact_res[0].entity.canonical_name, "NVFP4_Loader");

    let exact_tpm = db.search_entities("TPM", Some("atlas-memory"), 10).expect("search exact TPM");
    assert_eq!(exact_tpm.len(), 1);
    assert_eq!(exact_tpm[0].entity.canonical_name, "TPM_Vault");

    // 2. Prefix queries
    let prefix_res = db.search_entities("NVF*", Some("atlas-memory"), 10).expect("search prefix");
    assert_eq!(prefix_res.len(), 1);
    assert_eq!(prefix_res[0].entity.canonical_name, "NVFP4_Loader");

    let prefix_hard = db.search_entities("hardw*", Some("atlas-memory"), 10).expect("search prefix hardw*");
    assert_eq!(prefix_hard.len(), 1);
    assert_eq!(prefix_hard[0].entity.canonical_name, "TPM_Vault");

    let prefix_token = db.search_entities("token*", Some("atlas-memory"), 10).expect("search prefix token*");
    assert_eq!(prefix_token.len(), 1);
    assert_eq!(prefix_token[0].entity.canonical_name, "Qwen3_Parser");

    // 3. Boolean AND
    let and_res = db.search_entities("NVFP4 AND vLLM", Some("atlas-memory"), 10).expect("search AND");
    assert_eq!(and_res.len(), 1);
    assert_eq!(and_res[0].entity.canonical_name, "NVFP4_Loader");

    let and_mismatch = db.search_entities("NVFP4 AND non_existent_token", Some("atlas-memory"), 10).expect("search AND mismatch");
    assert_eq!(and_mismatch.len(), 0);

    // 4. Boolean OR
    let or_res = db.search_entities("Qwen3 OR TPM", Some("atlas-memory"), 10).expect("search OR");
    assert_eq!(or_res.len(), 2);
    let found = names(&or_res);
    assert!(found.contains(&"Qwen3_Parser".to_string()));
    assert!(found.contains(&"TPM_Vault".to_string()));

    // 5. Boolean NOT
    let not_res = db.search_entities("native NOT tokenizer", Some("atlas-memory"), 10).expect("search NOT");
    assert_eq!(not_res.len(), 1);
    assert_eq!(not_res[0].entity.canonical_name, "NVFP4_Loader");

    // 6. Ranking test (BM25 term frequency)
    let rank_res = db.search_entities("memory", Some("atlas-memory"), 10).expect("search ranking");
    assert!(!rank_res.is_empty());
    assert_eq!(rank_res[0].entity.canonical_name, "Memory_Optimizer");
}

#[test]
fn test_schema_integrity_metadata_indexing_and_deduplication() {
    let mut db = Database::open_in_memory().expect("open in memory db");

    // 1. Entity deduplication test
    let input_v1 = entity_input(
        "Atlas_Vault_Spec",
        "Initial specification v1",
        "discovery",
        vec!["vault_v1".to_string()],
        r#"{"subsystem":"security","hardware":{"tpm":true,"vendor":"stmicroelectronics"}}"#,
        "0.9",
    );
    let receipt1 = db.upsert_entity(&input_v1, None).expect("first upsert");
    let initial_id = receipt1.target_id.clone();

    // Re-upsert with same canonical_name in same space
    let input_v2 = entity_input(
        "Atlas_Vault_Spec",
        "Updated specification v2 with hardware sealing",
        "learned_procedure",
        vec!["vault_v1".to_string(), "vault_v2".to_string()],
        r#"{"subsystem":"security","hardware":{"tpm":true,"vendor":"stmicroelectronics","pcr_sealing":[0,2,7]}}"#,
        "1.0",
    );
    let receipt2 = db.upsert_entity(&input_v2, None).expect("second upsert");

    // Verify deduplication: ID remains unchanged, revision incremented to 2
    assert_eq!(receipt2.target_id, initial_id);

    let fetched = db.get_entity("Atlas_Vault_Spec", Some("atlas-memory")).expect("get entity").unwrap();
    assert_eq!(fetched.id, initial_id);
    assert_eq!(fetched.revision, 2);
    assert_eq!(fetched.entity_type, "learned_procedure");
    assert_eq!(fetched.content, "Updated specification v2 with hardware sealing");
    assert_eq!(fetched.aliases.len(), 2);

    // Verify nested metadata integrity
    let metadata: serde_json::Value = serde_json::from_str(&fetched.metadata).unwrap();
    assert_eq!(metadata["subsystem"], "security");
    assert_eq!(metadata["hardware"]["tpm"], true);
    assert_eq!(metadata["hardware"]["pcr_sealing"].as_array().unwrap().len(), 3);

    // Verify exactly 1 entity in the space carries the name
    let same_name = db.search_entities("Atlas_Vault_Spec", Some("atlas-memory"), 10).expect("search by name");
    assert_eq!(same_name.len(), 1);

    // 2. Claim schema and foreign key traversal
    let obj_input = entity_input("TPM_Chip", "Discrete TPM 2.0 module", "component", vec![], "{}", "1.0");
    let obj_receipt = db.upsert_entity(&obj_input, None).expect("upsert object entity");

    let claim_input = ClaimWriteInput {
        id: None,
        space: "atlas-memory".to_string(),
        subject_entity_id: initial_id.clone(),
        predicate: "binds_to".to_string(),
        object_entity_id: Some(obj_receipt.target_id.clone()),
        literal_value: None,
        confidence: "1.0".to_string(),
        metadata: r#"{"interface":"SPI"}"#.to_string(),
    };
    db.upsert_claim(&claim_input).expect("upsert claim");

    let claims = db.traverse_claims(&initial_id, Some("atlas-memory")).expect("traverse claims");
    assert_eq!(claims.len(), 1);
    assert_eq!(claims[0].predicate, "binds_to");
    assert_eq!(claims[0].object_entity_id, Some(obj_receipt.target_id));
    let claim_meta: serde_json::Value = serde_json::from_str(&claims[0].metadata).unwrap();
    assert_eq!(claim_meta["interface"], "SPI");

    // 3. Retraction verification
    let retract_receipt = db.retract_target("entity", &initial_id).expect("retract");
    assert_eq!(retract_receipt.operation, "entity.retract");

    let after_retract = db.get_entity("Atlas_Vault_Spec", Some("atlas-memory")).expect("get retracted");
    assert!(after_retract.is_none());

    let search_retract = db.search_entities("Atlas_Vault_Spec", Some("atlas-memory"), 10).expect("search retracted");
    assert!(search_retract.is_empty());
}

#[test]
fn upsert_revives_a_retracted_entity_and_counts_revisions() {
    let mut db = Database::open_in_memory().unwrap();
    let input = entity_input("Revived", "first", "lesson", vec![], "{}", "1");
    let r1 = db.upsert_entity(&input, None).unwrap();
    db.retract_target("entity", &r1.target_id).unwrap();
    assert!(db.get_entity("Revived", None).unwrap().is_none());
    let again = entity_input("Revived", "second", "lesson", vec![], "{}", "1");
    let r2 = db.upsert_entity(&again, None).unwrap();
    assert_eq!(r2.target_id, r1.target_id);
    let e = db.get_entity(&r1.target_id, None).unwrap().unwrap();
    assert_eq!(e.content, "second");
    assert_eq!(e.revision, 2);
    assert!(!e.retracted);
}

#[test]
fn empty_query_lists_recent_entities_up_to_limit() {
    let mut db = Database::open_in_memory().unwrap();
    for i in 0..4 {
        let input = entity_input(&format!("item_{}", i), "body", "lesson", vec![], "{}", "1");
        db.upsert_entity(&input, None).unwrap();
    }
    let rs = db.search_entities("   ", None, 3).unwrap();
    assert_eq!(rs.len(), 3);
    assert!(rs.iter().all(|r| matches!(r.basis, LexicalBasis::Recent)));
    assert!(rs.windows(2).all(|w| w[0].entity.created_at >= w[1].entity.created_at));
    let all = db.search_entities("", None, 10).unwrap();
    assert_eq!(all.len(), 4);
}

#[test]
fn substring_fallback_finds_inner_text_and_respects_limit() {
    let mut db = Database::open_in_memory().unwrap();
    for i in 0..5 {
        let input = entity_input(&format!("alphaBETA{}", i), "zzz", "lesson", vec![], "{}", "1");
        db.upsert_entity(&input, None).unwrap();
    }
    let rs = db.search_entities("pha", None, 3).unwrap();
    assert_eq!(rs.len(), 3);
    assert!(rs.iter().all(|r| matches!(r.basis, LexicalBasis::Substring)));
    let fts = db.search_entities("zzz", None, 10).unwrap();
    assert_eq!(fts.len(), 5);
    match &fts[0].basis {
        LexicalBasis::FullText { rank } => assert!(rank.parse::<f64>().is_ok()),
        other => panic!("expected a full-text result, got {:?}", other),
    }
}

#[test]
fn spaces_keep_entities_apart() {
    let mut db = Database::open_in_memory().unwrap();
    let mut input = entity_input("Shared", "alpha", "lesson", vec![], "{}", "1");
    input.space = "other-space".to_string();
    db.upsert_entity(&input, None).unwrap();
    assert!(db.get_entity("Shared", None).unwrap().is_none());
    assert!(db.get_entity("Shared", Some("other-space")).unwrap().is_some());
    assert!(db.search_entities("alpha", None, 10).unwrap().is_empty());
    let first = db.ensure_space("other-space").unwrap();
    let second = db.ensure_space("other-space").unwrap();
    assert_eq!(first, second);
}

#[test]
fn import_keeps_given_fields_and_confidence_reads_back() {
    let mut db = Database::open_in_memory().unwrap();
    let input = entity_input("Imported", "text", "lesson", vec!["a".to_string()], "{}", "0.95");
    let rc = db.upsert_entity(&input, None).unwrap();
    let mut e = db.get_entity("Imported", None).unwrap().unwrap();
    assert_eq!(e.confidence.parse::<f64>().unwrap(), 0.95);
    e.revision = 7;
    e.content = "replaced".to_string();
    db.import_entity_raw(&e, None).unwrap();
    let back = db.get_entity(&rc.target_id, None).unwrap().unwrap();
    assert_eq!(back.revision, 7);
    assert_eq!(back.content, "replaced");
    assert_eq!(back.aliases, vec!["a".to_string()]);
}

#[test]
fn retract_claim_hides_it_from_traversal() {
    let mut db = Database::open_in_memory().unwrap();
    let claim = ClaimWriteInput {
        id: Some("c1".to_string()),
        space: "atlas-memory".to_string(),
        subject_entity_id: "s".to_string(),
        predicate: "p".to_string(),
        object_entity_id: Some("o".to_string()),
        literal_value: Some("\"lit\"".to_string()),
        confidence: "1".to_string(),
        metadata: "{}".to_string(),
    };
    let rc = db.upsert_claim(&claim).unwrap();
    assert_eq!(rc.target_id, "c1");
    assert_eq!(rc.operation, "claim.upsert");
    assert_eq!(db.traverse_claims("o", None).unwrap().len(), 1);
    let r = db.retract_target("claim", "c1").unwrap();
    assert_eq!(r.operation, "claim.retract");
    assert!(db.traverse_claims("s", None).unwrap().is_empty());
    let other = db.retract_target("note", "c1").unwrap();
    assert_eq!(other.operation, "note.retract");
}

#[test]
fn recall_candidates_carry_embeddings_and_lexical_ranks() {
    let mut db = Database::open_in_memory().expect("open in memory db");

    let mut emb_a = vec![0.0f32; 768];
    emb_a[0] = 1.0;
    let mut emb_b = vec![0.0f32; 768];
    emb_b[0] = 0.7071;
    emb_b[1] = 0.7071;
    let mut emb_c = vec![0.0f32; 768];
    emb_c[1] = 1.0;

    let entities = vec![
        ("Vector_Alpha", "Entity aligned with primary axis X", emb_a),
        ("Vector_Beta", "Entity aligned midway between axes", emb_b),
        ("Vector_Gamma", "Entity aligned with secondary axis Y", emb_c),
    ];
    for (name, content, emb) in &entities {
        let input = entity_input(name, content, "vector_item", vec![], "{}", "1.0");
        db.upsert_entity(&input, Some(&embedding_bytes(emb))).expect("insert vector entity");
    }

    let candidates = db.recall_candidates("Entity", Some("atlas-memory")).expect("recall");
    assert_eq!(candidates.len(), 3);
    for c in &candidates {
        assert_eq!(c.lexical, LexicalMatch::Content);
        let (_, _, emb) = entities.iter().find(|(n, _, _)| *n == c.entity.canonical_name).unwrap();
        assert_eq!(c.embedding.as_deref(), Some(embedding_bytes(emb).as_slice()));
    }

    // Lexical-only ranking: only Vector_Gamma mentions "secondary".
    let lexical = db.recall_candidates("secondary", Some("atlas-memory")).expect("lexical recall");
    let keys: Vec<i64> = lexical
        .iter()
        .map(|c| match c.lexical {
            LexicalMatch::Name => 2,
            LexicalMatch::Content => 1,
            LexicalMatch::Neither => 0,
        })
        .collect();
    let order = rank_by_keys(&keys, 3);
    assert_eq!(lexical[order[0]].entity.canonical_name, "Vector_Gamma");
}

#[test]
fn claim_writes_leave_entities_alone() {
    let mut db = Database::open_in_memory().unwrap();
    let input = entity_input("Anchor", "steady content", "lesson", vec![], "{}", "1");
    let rc = db.upsert_entity(&input, None).unwrap();
    let before = db.search_entities("steady", None, 10).unwrap();
    let claim = ClaimWriteInput {
        id: None,
        space: "atlas-memory".to_string(),
        subject_entity_id: rc.target_id.clone(),
        predicate: "mentions".to_string(),
        object_entity_id: None,
        literal_value: Some("42".to_string()),
        confidence: "0.5".to_string(),
        metadata: "{}".to_string(),
    };
    db.upsert_claim(&claim).unwrap();
    let after = db.search_entities("steady", None, 10).unwrap();
    assert_eq!(before.len(), after.len());
    assert_eq!(after[0].entity.revision, 1);
    let claims = db.traverse_claims(&rc.target_id, None).unwrap();
    assert_eq!(claims.len(), 1);
    assert_eq!(claims[0].literal_value.as_deref(), Some("42"));
    assert_eq!(claims[0].confidence.parse::<f64>().unwrap(), 0.5);
}

#[test]
fn fts_operator_detection() {
    let yes = cortex_rs::text::chars_of("NVFP4 AND vLLM");
    assert!(cortex_rs::db::has_fts_operators(&yes));
    let star = cortex_rs::text::chars_of("hardw*");
    assert!(cortex_rs::db::has_fts_operators(&star));
    let no = cortex_rs::text::chars_of("plain words");
    assert!(!cortex_rs::db::has_fts_operators(&no));
}

#[test]
fn retract_of_unknown_target_type_succeeds_and_changes_nothing() {
    let mut db = Database::open_in_memory().expect("open");
    let input = entity_input("Keeper", "stays visible", "lesson", vec![], "{}", "1");
    let rc = db.upsert_entity(&input, None).expect("upsert");
    let receipt = db.retract_target("note", rc.target_id.as_str()).expect("retract of unknown type");
    assert_eq!(receipt.operation, "note.retract");
    assert_eq!(receipt.target_type, "note");
    assert!(db.get_entity("Keeper", None).unwrap().is_some());
}

#[test]
fn search_with_zero_limit_succeeds_empty() {
    let mut db = Database::open_in_memory().expect("open");
    let input = entity_input("Zero", "limit zero search", "lesson", vec![], "{}", "1");
    db.upsert_entity(&input, None).expect("upsert");
    let rs = db.search_entities("Zero", None, 0).expect("search");
    assert!(rs.is_empty());
}

fn is_uuid_v4_text(s: &str) -> bool {
    let c: Vec<char> = s.chars().collect();
    c.len() == 36
        && c.iter().enumerate().all(|(i, ch)| {
            if i == 8 || i == 13 || i == 18 || i == 23 {
                *ch == '-'
            } else {
                ch.is_ascii_digit() || ('a'..='f').contains(ch)
            }
        })
        && c[14] == '4'
        && matches!(c[19], '8' | '9' | 'a' | 'b')
}

#[test]
fn receipts_carry_uuid_ids_and_utc_times() {
    let mut db = Database::open_in_memory().expect("open");
    let input = entity_input("Receipt_Form", "receipt text", "lesson", vec![], "{}", "1");
    let rc = db.upsert_entity(&input, None).expect("upsert");
    assert!(is_uuid_v4_text(&rc.id));
    assert!(is_uuid_v4_text(&rc.target_id));
    assert!(rc.committed_at.ends_with("+00:00"));
    let claim = ClaimWriteInput {
        id: None,
        space: "atlas-memory".to_string(),
        subject_entity_id: rc.target_id.clone(),
        predicate: "relates_to".to_string(),
        object_entity_id: None,
        literal_value: None,
        confidence: "0.5".to_string(),
        metadata: "{}".to_string(),
    };
    let crc = db.upsert_claim(&claim).expect("claim");
    assert!(is_uuid_v4_text(&crc.id));
    assert!(is_uuid_v4_text(&crc.target_id));
    let retract = db.retract_target("claim", &crc.target_id).expect("retract");
    assert!(is_uuid_v4_text(&retract.id));
    assert!(retract.committed_at.ends_with("+00:00"));
}

#[test]
fn confidence_reads_back_as_stored_real_text() {
    let mut db = Database::open_in_memory().expect("open");
    let input = entity_input("Confident", "some content", "lesson", vec![], "{}", "0.25");
    db.upsert_entity(&input, None).expect("upsert");
    let e = db.get_entity("Confident", None).unwrap().unwrap();
    assert_eq!(e.confidence.parse::<f64>().unwrap(), 0.25);
}

#[test]
fn like_fallback_reads_text_up_to_nul() {
    let mut db = Database::open_in_memory().expect("open");
    let input = entity_input("Plain_Name", "alpha beta", "lesson", vec![], "{}", "1");
    db.upsert_entity(&input, None).expect("upsert");
    // SQLite's like() stops the pattern at the NUL, so `%beta` matches.
    let rs = db.search_entities("beta\u{0}zzz", None, 10).expect("search");
    assert!(rs.iter().any(|r| r.entity.canonical_name == "Plain_Name"));
}

#[test]
fn full_text_results_come_best_rank_first() {
    let mut db = Database::open_in_memory().expect("open");
    for (name, content) in [("One", "memory"), ("Two", "memory memory memory notes"), ("Three", "other words")] {
        let input = entity_input(name, content, "lesson", vec![], "{}", "1");
        db.upsert_entity(&input, None).expect("upsert");
    }
    let rs = db.search_entities("memory", None, 10).expect("search");
    let ranks: Vec<f64> = rs
        .iter()
        .filter_map(|r| match &r.basis {
            LexicalBasis::FullText { rank } => Some(rank.parse::<f64>().unwrap()),
            _ => None,
        })
        .collect();
    assert_eq!(ranks.len(), 2);
    assert!(ranks[0] <= ranks[1]);
}

fn result_named(name: &str) -> cortex_rs::models::SearchResult {
    cortex_rs::models::SearchResult {
        entity: cortex_rs::models::CortexEntity {
            id: format!("id_{}", name),
            space_id: "s".to_string(),
            space_slug: "atlas-memory".to_string(),
            entity_type: "lesson".to_string(),
            canonical_name: name.to_string(),
            content: String::new(),
            aliases: vec![],
            metadata: "{}".to_string(),
            confidence: "1".to_string(),
            revision: 1,
            retracted: false,
            valid_from: None,
            valid_to: None,
            created_at: "2024-01-01T00:00:00+00:00".to_string(),
        },
        basis: LexicalBasis::FullText { rank: "-1".to_string() },
    }
}

#[test]
fn full_text_section_prefers_the_operator_pass() {
    let names = |v: Vec<cortex_rs::models::SearchResult>| v.into_iter().map(|r| r.entity.canonical_name).collect::<Vec<_>>();
    // The operator pass gave results: its readable rows, in order.
    let op = Some(vec![None, Some(result_named("a")), Some(result_named("b"))]);
    let phrase = Some(vec![Some(result_named("c"))]);
    assert_eq!(names(full_text_section(op, phrase)), vec!["a", "b"]);
    // The operator pass read nothing: the phrase pass answers.
    let op = Some(vec![None]);
    let phrase = Some(vec![Some(result_named("c")), None]);
    assert_eq!(names(full_text_section(op, phrase)), vec!["c"]);
    // Both failed: nothing.
    assert!(full_text_section(None, None).is_empty());
}

#[test]
fn commit_times_have_rfc3339_utc_shape() {
    let mut db = Database::open_in_memory().expect("open");
    let input = entity_input("Shape", "time shape", "lesson", vec![], "{}", "1");
    let rc = db.upsert_entity(&input, None).expect("upsert");
    let t: Vec<char> = rc.committed_at.chars().collect();
    assert!(rc.committed_at.ends_with("+00:00"));
    assert_eq!(t[4], '-');
    assert_eq!(t[7], '-');
    assert_eq!(t[10], 'T');
    assert_eq!(t[13], ':');
    assert_eq!(t[16], ':');
    let frac = t.len() - 6 - 19;
    assert!(frac == 0 || frac == 4 || frac == 7 || frac == 10);
}
