//! The values that the engine takes and gives back.
//!
//! JSON documents (metadata, literal claim values) travel as their JSON text, and
//! confidences as the decimal text of a real number; the HTTP layer converts them.
use vstd::prelude::*;

verus! {

/// The number of components of an embedding that the encoder must return.
pub const EMBEDDING_DIMENSIONS: usize = 768;

/// The space that requests name when they name none.
pub open spec fn default_space_name() -> Seq<char> {
    "atlas-memory"@
}

/// An entity as stored and returned.
#[derive(Debug, Clone)]
pub struct CortexEntity {
    pub id: String,
    pub space_id: String,
    pub space_slug: String,
    pub entity_type: String,
    pub canonical_name: String,
    pub content: String,
    pub aliases: Vec<String>,
    /// JSON text of the metadata object.
    pub metadata: String,
    /// Decimal text of the confidence.
    pub confidence: String,
    pub revision: i64,
    pub retracted: bool,
    pub valid_from: Option<String>,
    pub valid_to: Option<String>,
    pub created_at: String,
}

/// A claim (an edge from a subject entity) as stored and returned.
#[derive(Debug, Clone)]
pub struct CortexClaim {
    pub id: String,
    pub space_id: String,
    pub space_slug: String,
    pub subject_entity_id: String,
    pub predicate: String,
    pub object_entity_id: Option<String>,
    /// JSON text of the literal value, if there is one.
    pub literal_value: Option<String>,
    /// Decimal text of the confidence.
    pub confidence: String,
    /// JSON text of the metadata object.
    pub metadata: String,
    pub retracted: bool,
    pub created_at: String,
}

/// What a write reports back.
#[derive(Debug, Clone)]
pub struct ReceiptDetails {
    pub id: String,
    pub operation: String,
    pub target_type: String,
    pub target_id: String,
    pub committed_at: String,
}

/// The answer to a successful write.
#[derive(Debug, Clone)]
pub struct CortexReceipt {
    pub recorded: bool,
    pub receipt: ReceiptDetails,
}

/// A request to create or update an entity.
#[derive(Debug, Clone)]
pub struct EntityWriteInput {
    pub id: Option<String>,
    pub space: String,
    pub entity_type: String,
    pub canonical_name: String,
    pub content: String,
    pub aliases: Vec<String>,
    /// JSON text of the metadata object.
    pub metadata: String,
    /// Decimal text of the confidence.
    pub confidence: String,
    pub valid_from: Option<String>,
    pub valid_to: Option<String>,
    pub external_id: Option<String>,
}

/// A request to create or update a claim.
#[derive(Debug, Clone)]
pub struct ClaimWriteInput {
    pub id: Option<String>,
    pub space: String,
    pub subject_entity_id: String,
    pub predicate: String,
    pub object_entity_id: Option<String>,
    /// JSON text of the literal value, if there is one.
    pub literal_value: Option<String>,
    /// Decimal text of the confidence.
    pub confidence: String,
    /// JSON text of the metadata object.
    pub metadata: String,
}

/// A request to retract an entity or a claim.
#[derive(Debug, Clone)]
pub struct RetractInput {
    pub target_type: String,
    pub target_id: String,
    pub reason: Option<String>,
}

/// The three kinds of write.
#[derive(Debug, Clone)]
pub enum WritePayload {
    Entity { value: EntityWriteInput },
    Claim { value: ClaimWriteInput },
    Retract { value: RetractInput },
}

/// Parameters of a search request.
#[derive(Debug, Clone)]
pub struct SearchParams {
    pub q: Option<String>,
    pub query: Option<String>,
    pub space: Option<String>,
    pub limit: Option<usize>,
    pub include_retracted: Option<bool>,
}

/// How a search result was found, which decides its lexical score.
#[derive(Debug, Clone)]
pub enum LexicalBasis {
    /// Listed among the most recent entities, for an empty query.
    Recent,
    /// Matched by the full-text index, with its BM25 rank as decimal text.
    FullText { rank: String },
    /// Matched by the substring fallback.
    Substring,
}

/// One search result.
#[derive(Debug, Clone)]
pub struct SearchResult {
    pub entity: CortexEntity,
    pub basis: LexicalBasis,
}

/// Where a recall query occurs in an entity, ignoring case.
#[derive(Debug, Clone, Copy, PartialEq, Eq, Structural)]
pub enum LexicalMatch {
    /// In its canonical name.
    Name,
    /// Not in its name but in its content.
    Content,
    /// In neither.
    Neither,
}

/// An entity considered by recall, before semantic scoring.
#[derive(Debug, Clone)]
pub struct RecallCandidate {
    pub entity: CortexEntity,
    pub embedding: Option<Vec<u8>>,
    pub lexical: LexicalMatch,
}

/// Parameters of a recall request.
#[derive(Debug, Clone)]
pub struct RecallPayload {
    pub query: String,
    pub space: Option<String>,
    pub limit: usize,
    pub token_budget: usize,
}

/// Parameters of a traversal request.
#[derive(Debug, Clone)]
pub struct TraversePayload {
    pub subject_id: String,
    pub space: Option<String>,
}

/// Parameters of a lookup request.
#[derive(Debug, Clone)]
pub struct GetParams {
    pub id: Option<String>,
    pub name: Option<String>,
    pub space: Option<String>,
}

/// The space used when a request names none: `atlas-memory`.
pub fn default_space() -> (r: String)
    ensures
        r@ == default_space_name(),
{
    String::from_str("atlas-memory")
}

/// The entity type used when a write names none: `discovery`.
pub fn default_entity_type() -> (r: String)
    ensures
        r@ == "discovery"@,
{
    String::from_str("discovery")
}

/// The metadata used when a write gives none: the empty JSON object.
pub fn default_json_object() -> (r: String)
    ensures
        r@ == "{}"@,
{
    String::from_str("{}")
}

/// The search limit used when a request gives none: 12.
pub fn default_search_limit() -> (r: Option<usize>)
    ensures
        r == Some(12usize),
{
    Some(12)
}

/// The recall limit used when a request gives none: 5.
pub fn default_recall_limit() -> (r: usize)
    ensures
        r == 5,
{
    5
}

/// The recall token budget used when a request gives none: 1200.
pub fn default_token_budget() -> (r: usize)
    ensures
        r == 1200,
{
    1200
}

} // verus!
