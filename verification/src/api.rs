//! The decisions of the HTTP API: what each route asks of the store, and which
//! status and message it answers with. Transport, JSON and timing stay outside.
use vstd::prelude::*;
use crate::db::{
    claim_upserted, entity_upserted, reads_visible, search_answer, space_or_default, target_retracted, Database,
};
use crate::models::{
    default_space_name, CortexClaim, CortexEntity, CortexReceipt, GetParams, RecallPayload, SearchParams,
    SearchResult, TraversePayload, WritePayload,
};
use crate::text::{chars_of, string_of, trim, trimmed};

verus! {

/// A refused or failed request: its HTTP status and error message.
#[derive(Debug, Clone)]
pub struct ApiError {
    pub status: u16,
    pub message: String,
}

/// What the health route reports.
#[derive(Debug, Clone)]
pub struct HealthStatus {
    pub status: String,
    pub service: String,
    pub version: String,
    pub space: String,
    pub runtime: String,
}

/// The largest number of search results one request may ask for.
pub const MAX_SEARCH_LIMIT: usize = 50;

/// The largest number of recall results one request may ask for.
pub const MAX_RECALL_LIMIT: usize = 20;

/// The text sent to the embedding encoder for an entity: `name: content`, or the
/// name alone when the content is blank.
pub open spec fn embedding_text_of(name: Seq<char>, content: Seq<char>) -> Seq<char> {
    if trimmed(content).len() > 0 {
        name + ": "@ + content
    } else {
        name
    }
}

/// The text sent to the embedding encoder for an entity with this name and content.
pub fn embedding_text(canonical_name: &str, content: &str) -> (r: String)
    ensures
        r@ == embedding_text_of(canonical_name@, content@),
{
    let blank = trim(content);
    if !blank.as_str().is_empty() {
        String::from_str(canonical_name).concat(": ").concat(content)
    } else {
        String::from_str(canonical_name)
    }
}

/// `s` without its trailing `/` characters, as `str::trim_end_matches('/')` leaves it.
pub open spec fn without_trailing_slashes(s: Seq<char>) -> Seq<char>
    decreases s.len(),
{
    if s.len() > 0 && s.last() == '/' {
        without_trailing_slashes(s.drop_last())
    } else {
        s
    }
}

/// The address of the encoder's embedding route: the encoder's base address without
/// its trailing `/` characters, then `/embed`.
pub fn embed_url(encoder_url: &str) -> (r: String)
    ensures
        r@ == without_trailing_slashes(encoder_url@) + "/embed"@,
{
    let v = chars_of(encoder_url);
    let mut end: usize = v.len();
    assert(v@.take(v@.len() as int) =~= v@);
    while end > 0 && v[end - 1] == '/'
        invariant
            end <= v@.len(),
            without_trailing_slashes(v@.take(end as int)) == without_trailing_slashes(v@),
        decreases end,
    {
        proof {
            assert(v@.take(end - 1) =~= v@.take(end as int).drop_last());
        }
        end = end - 1;
    }
    let mut base: Vec<char> = Vec::new();
    let mut i: usize = 0;
    while i < end
        invariant
            i <= end <= v@.len(),
            base@ == v@.take(i as int),
        decreases end - i,
    {
        base.push(v[i]);
        proof {
            assert(v@.take(i + 1) =~= v@.take(i as int).push(v@[i as int]));
        }
        i = i + 1;
    }
    let b = string_of(&base);
    b.concat("/embed")
}

/// The search text of a request: `q`, else `query`, else empty.
pub open spec fn search_text_of(params: SearchParams) -> Seq<char> {
    match params.q {
        Some(q) => q@,
        None => match params.query {
            Some(q) => q@,
            None => Seq::empty(),
        },
    }
}

/// The result limit of a search request: its own (12 when it gives none), at most 50.
pub open spec fn search_limit_of(params: SearchParams) -> usize {
    let asked = match params.limit {
        Some(l) => l,
        None => 12usize,
    };
    if asked < MAX_SEARCH_LIMIT { asked } else { MAX_SEARCH_LIMIT }
}

/// The search text of a request: `q`, else `query`, else empty.
pub fn search_text(params: &SearchParams) -> (r: String)
    ensures
        r@ == search_text_of(*params),
{
    match &params.q {
        Some(q) => q.clone(),
        None => match &params.query {
            Some(q) => q.clone(),
            None => String::new(),
        },
    }
}

/// The result limit of a search request: its own (12 when it gives none), at most 50.
pub fn search_limit(params: &SearchParams) -> (r: usize)
    ensures
        r == search_limit_of(*params),
{
    let asked = match params.limit {
        Some(l) => l,
        None => 12,
    };
    if asked < MAX_SEARCH_LIMIT {
        asked
    } else {
        MAX_SEARCH_LIMIT
    }
}

/// The result limit of a recall request: its own, at most 20.
pub fn recall_limit(payload: &RecallPayload) -> (r: usize)
    ensures
        r == if payload.limit < MAX_RECALL_LIMIT { payload.limit } else { MAX_RECALL_LIMIT },
{
    if payload.limit < MAX_RECALL_LIMIT {
        payload.limit
    } else {
        MAX_RECALL_LIMIT
    }
}

/// A failed store operation answers 500 with the store's message.
fn internal(message: String) -> (r: ApiError)
    ensures
        r.status == 500,
        r.message == message,
{
    ApiError { status: 500, message }
}

/// The write route: stores the entity, claim or retraction; a store failure
/// answers 500. An entity is stored with `embedding`, which the caller fetched.
pub fn handle_write(db: &mut Database, payload: &WritePayload, embedding: Option<&[u8]>) -> (r: Result<CortexReceipt, ApiError>)
    ensures
        match r {
            Ok(rc) => rc.recorded && match *payload {
                WritePayload::Entity { value } => entity_upserted(
                    old(db).tables(),
                    final(db).tables(),
                    value,
                    embedding.deep_view(),
                    rc.receipt,
                ),
                WritePayload::Claim { value } => claim_upserted(old(db).tables(), final(db).tables(), value, rc.receipt),
                WritePayload::Retract { value } => target_retracted(
                    old(db).tables(),
                    final(db).tables(),
                    value.target_type@,
                    value.target_id@,
                ),
            },
            Err(e) => e.status == 500,
        },
{
    let res = match payload {
        WritePayload::Entity { value } => db.upsert_entity(value, embedding),
        WritePayload::Claim { value } => db.upsert_claim(value),
        WritePayload::Retract { value } => db.retract_target(value.target_type.as_str(), value.target_id.as_str()),
    };
    match res {
        Ok(receipt) => Ok(CortexReceipt { recorded: true, receipt }),
        Err(e) => Err(internal(e.into_message())),
    }
}

/// The search route: the request's text, space and limit go to the store's search.
pub fn handle_search(db: &Database, params: &SearchParams) -> (r: Result<Vec<SearchResult>, ApiError>)
    ensures
        match r {
            Ok(rs) => search_answer(
                db.tables().entities,
                db.tables().fts,
                rs@,
                search_text_of(*params),
                space_or_default(params.space.deep_view()),
                search_limit_of(*params),
            ),
            Err(e) => e.status == 500,
        },
{
    let q = search_text(params);
    let limit = search_limit(params);
    let space = match &params.space {
        Some(s) => Some(s.as_str()),
        None => None,
    };
    match db.search_entities(q.as_str(), space, limit) {
        Ok(rs) => Ok(rs),
        Err(e) => Err(internal(e.into_message())),
    }
}

/// The key a lookup request names: `id`, else `name`, else empty.
pub open spec fn lookup_key_of(params: GetParams) -> Seq<char> {
    match params.id {
        Some(id) => id@,
        None => match params.name {
            Some(n) => n@,
            None => Seq::empty(),
        },
    }
}

/// The lookup route: a request that names no id or name answers 400 "Missing id or
/// name parameter"; an entity that is not found answers 404 "Entity not found"; a
/// store failure answers 500.
pub fn handle_get(db: &Database, params: &GetParams) -> (r: Result<CortexEntity, ApiError>)
    ensures
        lookup_key_of(*params).len() == 0 <==> (match r {
            Err(e) => e.status == 400,
            Ok(_) => false,
        }),
        match r {
            Ok(e) => reads_visible(db.tables().entities, e, space_or_default(params.space.deep_view()))
                && (e.id@ == lookup_key_of(*params) || e.canonical_name@ == lookup_key_of(*params)),
            Err(e) => {
                &&& e.status == 400 ==> e.message@ == "Missing id or name parameter"@
                &&& e.status == 404 ==> e.message@ == "Entity not found"@
                &&& e.status == 404 ==> forall|k: Seq<char>|
                    !#[trigger] crate::db::matches_key(db.tables().entities, k, lookup_key_of(*params), space_or_default(params.space.deep_view()))
                &&& e.status == 400 || e.status == 404 || e.status == 500
            },
        },
{
    let key = match &params.id {
        Some(id) => id.clone(),
        None => match &params.name {
            Some(n) => n.clone(),
            None => String::new(),
        },
    };
    if key.as_str().is_empty() {
        let e = ApiError { status: 400, message: String::from_str("Missing id or name parameter") };
        return Err(e);
    }
    let space = match &params.space {
        Some(s) => Some(s.as_str()),
        None => None,
    };
    assert(space.deep_view() == params.space.deep_view());
    assert(key@ == lookup_key_of(*params));
    match db.get_entity(key.as_str(), space) {
        Ok(Some(e)) => Ok(e),
        Ok(None) => Err(ApiError { status: 404, message: String::from_str("Entity not found") }),
        Err(e) => Err(internal(e.into_message())),
    }
}

/// The traversal route: the claims that touch the subject in the space.
pub fn handle_traverse(db: &Database, payload: &TraversePayload) -> (r: Result<Vec<CortexClaim>, ApiError>)
    ensures
        match r {
            Ok(cl) => {
                let sp = space_or_default(payload.space.deep_view());
                let claims = db.tables().claims;
                &&& crate::store::distinct(cl@.map_values(|c: CortexClaim| c.id@))
                &&& forall|i: int| 0 <= i < cl@.len() ==> claims.contains_key(#[trigger] cl@[i].id@)
                    && crate::store::claim_touches(claims[cl@[i].id@], payload.subject_id@, sp)
                    && crate::db::claim_reads(cl@[i], cl@[i].id@, claims[cl@[i].id@])
                &&& forall|k: Seq<char>| #[trigger] claims.contains_key(k) && crate::store::claim_touches(claims[k], payload.subject_id@, sp)
                    ==> cl@.map_values(|c: CortexClaim| c.id@).contains(k)
            },
            Err(e) => e.status == 500,
        },
{
    let space = match &payload.space {
        Some(s) => Some(s.as_str()),
        None => None,
    };
    match db.traverse_claims(payload.subject_id.as_str(), space) {
        Ok(cl) => Ok(cl),
        Err(e) => Err(internal(e.into_message())),
    }
}

/// What the health route reports: the service is up, its name and version, its
/// default space and its runtime.
pub fn health_status() -> (r: HealthStatus)
    ensures
        r.status@ == "ok"@,
        r.service@ == "cortex-rs"@,
        r.version@ == "0.1.0"@,
        r.space@ == default_space_name(),
        r.runtime@ == "native-arm64-rust"@,
{
    HealthStatus {
        status: String::from_str("ok"),
        service: String::from_str("cortex-rs"),
        version: String::from_str("0.1.0"),
        space: String::from_str("atlas-memory"),
        runtime: String::from_str("native-arm64-rust"),
    }
}

} // verus!
