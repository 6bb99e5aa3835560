//! The memory store: entities and claims kept in SQLite, written by upsert,
//! hidden by retraction, and read by lookup, search, recall and traversal.
use vstd::prelude::*;
use vstd::multiset::Multiset;
use rusqlite::Connection;
pub use crate::store::DbError;
use vstd::pervasive::unreached;
use crate::models::{
    default_space, default_space_name, ClaimWriteInput, CortexClaim, CortexEntity, EntityWriteInput, LexicalBasis,
    RecallCandidate, ReceiptDetails, SearchResult,
};
use crate::services::{is_uuid_v4_text, is_rfc3339_utc_text, json_of_strings, new_uuid, now_rfc3339, strings_from_json, strings_of_json, strings_to_json};
use crate::ranking::{lexical_match_lowered, lexical_of};
use crate::store::{
    claim_by_id, claim_ids_touching, claim_table, claim_touches, create_schema, delete_fts_rows, distinct,
    entity_by_id, entity_named, entity_table, error_text, fts_hits, fts_match, fts_table, import_entity_row,
    imported_entity, insert_fts_row, insert_space, insert_space_or_ignore, like_entity_ids, open_file_handle, open_memory_handle, Handle,
    recent_entity_ids, retract_claim_row, space_id_taken, stored_real_text, retract_entity_row, set_pragmas, set_wal_journal, space_id_of,
    space_table, text_le, upsert_claim_row, upsert_entity_row, upserted_claim, upserted_entity, visible_entities,
    visible_entity_id, visible_in, bm25_at_most, bm25_rank_text, fts_single, FtsHit, ClaimRecord, ClaimRow, EntityRecord, EntityRow, FtsEntry,
};
use crate::text::{
    chars_of, contains, contains_text, sql_like, lowercase, lowercase_of, remove_char, string_of, trim, trimmed,
    without_char,
};

verus! {

/// The four tables of a store, as values.
pub struct Tables {
    pub entities: Map<Seq<char>, EntityRecord>,
    pub claims: Map<Seq<char>, ClaimRecord>,
    pub spaces: Map<Seq<char>, Seq<char>>,
    pub fts: Multiset<FtsEntry>,
}

/// The memory store.
pub struct Database {
    conn: Handle,
}

/// The space a request means: the one it names, or `atlas-memory`.
pub open spec fn space_or_default(space: Option<Seq<char>>) -> Seq<char> {
    match space {
        Some(s) => s,
        None => default_space_name(),
    }
}

/// The alias list stored as JSON text `aliases_json`, or the empty list when the
/// text does not read as a list of strings.
pub open spec fn aliases_of(aliases_json: Seq<char>) -> Seq<Seq<char>> {
    match strings_of_json(aliases_json) {
        Some(v) => v,
        None => Seq::empty(),
    }
}

/// `e` is the stored entity `rec` under id `id`, as lookups return it.
pub open spec fn entity_reads(e: CortexEntity, id: Seq<char>, rec: EntityRecord) -> bool {
    &&& e.id@ == id
    &&& e.space_id@ == rec.space_id
    &&& e.space_slug@ == rec.space_slug
    &&& e.entity_type@ == rec.entity_type
    &&& e.canonical_name@ == rec.canonical_name
    &&& e.content@ == rec.content
    &&& e.aliases.deep_view() == aliases_of(rec.aliases_json)
    &&& e.metadata@ == rec.metadata_json
    &&& e.confidence@ == rec.confidence
    &&& e.revision == rec.revision
    &&& e.retracted == rec.retracted
    &&& e.valid_from.deep_view() == rec.valid_from
    &&& e.valid_to.deep_view() == rec.valid_to
    &&& e.created_at@ == rec.created_at
}

/// `e` is a stored entity of `ents` that is visible in space `space`.
pub open spec fn reads_visible(ents: Map<Seq<char>, EntityRecord>, e: CortexEntity, space: Seq<char>) -> bool {
    &&& ents.contains_key(e.id@)
    &&& visible_in(ents[e.id@], space)
    &&& entity_reads(e, e.id@, ents[e.id@])
}

/// Entity `k` of `ents` is visible in `space` and has id or name `key`.
pub open spec fn matches_key(ents: Map<Seq<char>, EntityRecord>, k: Seq<char>, key: Seq<char>, space: Seq<char>) -> bool {
    &&& ents.contains_key(k)
    &&& visible_in(ents[k], space)
    &&& (k == key || ents[k].canonical_name == key)
}

/// Some entity of `ents` (retracted or not) has name `name` in space `space`.
pub open spec fn name_taken(ents: Map<Seq<char>, EntityRecord>, space: Seq<char>, name: Seq<char>) -> bool {
    exists|k: Seq<char>| #[trigger] ents.contains_key(k) && ents[k].space_slug == space && ents[k].canonical_name == name
}

/// The revision after `rev`; past the largest revision it wraps, as `i64` addition does.
pub open spec fn next_revision(rev: i64) -> i64 {
    if rev < i64::MAX { (rev + 1) as i64 } else { i64::MIN }
}

/// `spaces_after` is `spaces_before` with space `slug` present: added if it was missing,
/// unchanged if it was there.
pub open spec fn space_ensured(spaces_before: Map<Seq<char>, Seq<char>>, spaces_after: Map<Seq<char>, Seq<char>>, slug: Seq<char>) -> bool {
    &&& spaces_after.contains_key(slug)
    &&& spaces_after == spaces_before.insert(slug, spaces_after[slug])
    &&& spaces_before.contains_key(slug) ==> spaces_before[slug] == spaces_after[slug]
}

/// No two spaces share an id.
pub open spec fn space_ids_distinct(spaces: Map<Seq<char>, Seq<char>>) -> bool {
    forall|a: Seq<char>, b: Seq<char>| #[trigger] spaces.contains_key(a) && #[trigger] spaces.contains_key(b) && a != b
        ==> spaces[a] != spaces[b]
}

/// Adding space `slug` with an id that no space has keeps the ids distinct.
proof fn lemma_fresh_space_keeps_ids_distinct(spaces: Map<Seq<char>, Seq<char>>, slug: Seq<char>, id: Seq<char>)
    requires
        space_ids_distinct(spaces),
        !space_id_taken(spaces, id),
    ensures
        space_ids_distinct(spaces.insert(slug, id)),
{
    let m = spaces.insert(slug, id);
    assert forall|a: Seq<char>, b: Seq<char>| #[trigger] m.contains_key(a) && #[trigger] m.contains_key(b) && a != b
        implies m[a] != m[b] by {
        if a == slug {
            assert(spaces.contains_key(b) && spaces[b] == m[b]);
        } else if b == slug {
            assert(spaces.contains_key(a) && spaces[a] == m[a]);
        }
    }
}

/// A time as `now_rfc3339` writes it: RFC 3339 text in UTC, ending in `+00:00`.
pub open spec fn is_utc_time_text(s: Seq<char>) -> bool {
    is_rfc3339_utc_text(s)
}

/// The index after entity `id`'s entries were refreshed with `entry`, each of the two
/// steps (dropping the old entries, adding the new one) having taken effect or not:
/// the old entries of `id` are all kept or all gone, `entry` is added once or not at
/// all, and the entries of other entities stay as they were.
pub open spec fn fts_refreshed(before: Multiset<FtsEntry>, after: Multiset<FtsEntry>, id: Seq<char>, entry: FtsEntry) -> bool {
    exists|kept: bool, added: bool| #[trigger] fts_refreshed_as(before, after, id, entry, kept, added)
}

/// The index after the refresh of `fts_refreshed`, the old entries of `id` being kept
/// or not (`kept`) and `entry` added or not (`added`).
pub open spec fn fts_refreshed_as(
    before: Multiset<FtsEntry>,
    after: Multiset<FtsEntry>,
    id: Seq<char>,
    entry: FtsEntry,
    kept: bool,
    added: bool,
) -> bool {
    forall|e: FtsEntry| #[trigger] after.count(e) == if e.0 == id {
        (if kept { before.count(e) } else { 0nat }) + (if added && e == entry { 1nat } else { 0nat })
    } else {
        before.count(e)
    }
}

/// Refreshing the entries of an entity that had none keeps at most one entry per entity.
pub proof fn lemma_refresh_of_new_entity_keeps_single(before: Multiset<FtsEntry>, after: Multiset<FtsEntry>, entry: FtsEntry)
    requires
        fts_single(before),
        forall|e: FtsEntry| e.0 == entry.0 ==> #[trigger] before.count(e) == 0,
        fts_refreshed(before, after, entry.0, entry),
    ensures
        fts_single(after),
{
    let (kept, added) = choose|kept: bool, added: bool| #[trigger] fts_refreshed_as(before, after, entry.0, entry, kept, added);
    assert forall|a: FtsEntry, b: FtsEntry| #[trigger] after.count(a) > 0 && #[trigger] after.count(b) > 0 && a.0 == b.0
        implies a == b && after.count(a) == 1 by {
        if a.0 == entry.0 {
            assert(before.count(a) == 0);
            assert(before.count(b) == 0);
        } else {
            assert(before.count(a) > 0 && before.count(b) > 0);
        }
    }
}

/// `aj` is the stored JSON text of the alias list `aliases`: its `serde_json` text,
/// which reads back as the same list.
pub open spec fn aliases_text(aj: Seq<char>, aliases: Seq<Seq<char>>) -> bool {
    aj == json_of_strings(aliases) && strings_of_json(aj) == Some(aliases)
}

/// The effect of `upsert_entity(input, embedding)` that answered with receipt `rc`.
/// The target is the entity of that name in that space if there is one (and its
/// revision goes up by one); otherwise the id the input gives, or a fresh one, at
/// revision 1. The entity written there is not retracted and carries the input's
/// fields; an entity that existed keeps its space, creation time and (when none is
/// given) its embedding.
pub open spec fn entity_upserted(
    before: Tables,
    after: Tables,
    input: EntityWriteInput,
    embedding: Option<Seq<u8>>,
    rc: ReceiptDetails,
) -> bool {
    let t = rc.target_id@;
    let space = input.space@;
    let name = input.canonical_name@;
    let taken = name_taken(before.entities, space, name);
    &&& rc.operation@ == "entity.upsert"@
    &&& rc.target_type@ == "entity"@
    &&& is_uuid_v4_text(rc.id@)
    &&& is_utc_time_text(rc.committed_at@)
    &&& !taken && input.id is None ==> is_uuid_v4_text(t) && !before.entities.contains_key(t)
    &&& after.claims == before.claims
    &&& space_ensured(before.spaces, after.spaces, space)
    &&& taken ==> before.entities.contains_key(t) && before.entities[t].space_slug == space
        && before.entities[t].canonical_name == name
    &&& !taken && input.id is Some ==> t == input.id->0@
    &&& after.entities.contains_key(t)
    &&& aliases_text(after.entities[t].aliases_json, input.aliases.deep_view())
    &&& after.entities == before.entities.insert(
        t,
        upserted_entity(
            before.entities.get(t),
            EntityRecord {
                space_id: after.spaces[space],
                space_slug: space,
                entity_type: input.entity_type@,
                canonical_name: name,
                content: input.content@,
                aliases_json: after.entities[t].aliases_json,
                metadata_json: input.metadata@,
                confidence: stored_real_text(input.confidence@),
                revision: if taken { next_revision(before.entities[t].revision) } else { 1 },
                retracted: false,
                valid_from: input.valid_from.deep_view(),
                valid_to: input.valid_to.deep_view(),
                created_at: rc.committed_at@,
                embedding: embedding,
            },
        ),
    )
    &&& fts_refreshed(before.fts, after.fts, t, (t, name, input.content@, space))
}

/// The effect of `upsert_claim(input)` that answered with receipt `rc`: the claim
/// under the input's id (or a fresh one) is written, not retracted; a claim that
/// existed keeps its space, subject and creation time.
pub open spec fn claim_upserted(before: Tables, after: Tables, input: ClaimWriteInput, rc: ReceiptDetails) -> bool {
    let t = rc.target_id@;
    let space = input.space@;
    &&& rc.operation@ == "claim.upsert"@
    &&& rc.target_type@ == "claim"@
    &&& is_uuid_v4_text(rc.id@)
    &&& is_utc_time_text(rc.committed_at@)
    &&& input.id is Some ==> t == input.id->0@
    &&& input.id is None ==> is_uuid_v4_text(t) && !before.claims.contains_key(t)
    &&& after.entities == before.entities
    &&& after.fts == before.fts
    &&& space_ensured(before.spaces, after.spaces, space)
    &&& after.claims == before.claims.insert(
        t,
        upserted_claim(
            before.claims.get(t),
            ClaimRecord {
                space_id: after.spaces[space],
                space_slug: space,
                subject_entity_id: input.subject_entity_id@,
                predicate: input.predicate@,
                object_entity_id: input.object_entity_id.deep_view(),
                literal_value_json: input.literal_value.deep_view(),
                confidence: stored_real_text(input.confidence@),
                metadata_json: input.metadata@,
                retracted: false,
                created_at: rc.committed_at@,
            },
        ),
    )
}

/// `ents` with entity `id` marked retracted (unchanged if there is no such entity).
pub open spec fn entity_retracted(ents: Map<Seq<char>, EntityRecord>, id: Seq<char>) -> Map<Seq<char>, EntityRecord> {
    if ents.contains_key(id) {
        ents.insert(id, EntityRecord { retracted: true, ..ents[id] })
    } else {
        ents
    }
}

/// `claims` with claim `id` marked retracted (unchanged if there is no such claim).
pub open spec fn claim_retracted(claims: Map<Seq<char>, ClaimRecord>, id: Seq<char>) -> Map<Seq<char>, ClaimRecord> {
    if claims.contains_key(id) {
        claims.insert(id, ClaimRecord { retracted: true, ..claims[id] })
    } else {
        claims
    }
}

/// The effect of a successful `retract_target(target_type, target_id)`: an entity is
/// marked retracted and its index entries dropped; a claim is marked retracted; any
/// other target type changes nothing.
pub open spec fn target_retracted(before: Tables, after: Tables, target_type: Seq<char>, target_id: Seq<char>) -> bool {
    &&& after.spaces == before.spaces
    &&& if target_type == "entity"@ {
        &&& after.entities == entity_retracted(before.entities, target_id)
        &&& after.claims == before.claims
        &&& forall|e: FtsEntry| #[trigger] after.fts.count(e) == if e.0 == target_id { 0 } else { before.fts.count(e) }
    } else if target_type == "claim"@ {
        &&& after.entities == before.entities
        &&& after.claims == claim_retracted(before.claims, target_id)
        &&& after.fts == before.fts
    } else {
        after == before
    }
}

/// The effect of `import_entity_raw(e, embedding)`: entity `e` is written under its
/// own id with its own revision, retraction flag and creation time; an entity that
/// existed keeps its space, type, validity dates and (when none is given) embedding.
pub open spec fn entity_imported(before: Tables, after: Tables, e: CortexEntity, embedding: Option<Seq<u8>>) -> bool {
    let t = e.id@;
    &&& after.claims == before.claims
    &&& after.spaces == before.spaces
    &&& after.entities.contains_key(t)
    &&& aliases_text(after.entities[t].aliases_json, e.aliases.deep_view())
    &&& after.entities == before.entities.insert(
        t,
        imported_entity(
            before.entities.get(t),
            EntityRecord {
                space_id: e.space_id@,
                space_slug: e.space_slug@,
                entity_type: e.entity_type@,
                canonical_name: e.canonical_name@,
                content: e.content@,
                aliases_json: after.entities[t].aliases_json,
                metadata_json: e.metadata@,
                confidence: stored_real_text(e.confidence@),
                revision: e.revision,
                retracted: e.retracted,
                valid_from: e.valid_from.deep_view(),
                valid_to: e.valid_to.deep_view(),
                created_at: e.created_at@,
                embedding: embedding,
            },
        ),
    )
    &&& fts_refreshed(before.fts, after.fts, t, (t, e.canonical_name@, e.content@, e.space_slug@))
}

/// `c` is the stored claim `rec` under id `id`, as traversal returns it.
pub open spec fn claim_reads(c: CortexClaim, id: Seq<char>, rec: ClaimRecord) -> bool {
    &&& c.id@ == id
    &&& c.space_id@ == rec.space_id
    &&& c.space_slug@ == rec.space_slug
    &&& c.subject_entity_id@ == rec.subject_entity_id
    &&& c.predicate@ == rec.predicate
    &&& c.object_entity_id.deep_view() == rec.object_entity_id
    &&& c.literal_value.deep_view() == rec.literal_value_json
    &&& c.metadata@ == rec.metadata_json
    &&& c.confidence@ == rec.confidence
    &&& c.retracted == rec.retracted
    &&& c.created_at@ == rec.created_at
}

/// The `LIKE` pattern of the substring fallback: the query between two `%`.
pub open spec fn like_pattern(q: Seq<char>) -> Seq<char> {
    seq!['%'] + q + seq!['%']
}

/// The entity's name or content matches the `LIKE` pattern, as SQLite reads them.
pub open spec fn like_either(rec: EntityRecord, pattern: Seq<char>) -> bool {
    sql_like(pattern, rec.canonical_name) || sql_like(pattern, rec.content)
}

/// The ids of the results, in order.
pub open spec fn result_ids(rs: Seq<SearchResult>) -> Seq<Seq<char>> {
    rs.map_values(|r: SearchResult| r.entity.id@)
}

/// The expression of a quoted FTS5 phrase: the text between double quotes.
pub open spec fn phrase_of(s: Seq<char>) -> Seq<char> {
    seq!['"'] + s + seq!['"']
}

/// The BM25 rank text of a full-text result, if it is one.
pub open spec fn rank_of(basis: LexicalBasis) -> Option<Seq<char>> {
    match basis {
        LexicalBasis::FullText { rank } => Some(rank@),
        _ => None,
    }
}

/// The first `hits.len()` results `rs` were found by the full-text index under the
/// FTS5 expression `q`, and no later one was: result `i` is the entity of index entry
/// `hits[i]`, which `q` matches, with that entry's BM25 rank; the entries come best
/// rank first; and when every entity has at most one index entry, no entity comes
/// twice among them.
pub open spec fn full_text_ranked(fts: Multiset<FtsEntry>, rs: Seq<SearchResult>, hits: Seq<FtsEntry>, q: Seq<char>) -> bool {
    &&& hits.len() <= rs.len()
    &&& forall|i: int| 0 <= i < hits.len() ==> {
        &&& #[trigger] hits[i].0 == rs[i].entity.id@
        &&& fts.count(hits[i]) > 0
        &&& fts_match(q, hits[i].1, hits[i].2)
        &&& rank_of(rs[i].basis) == Some(bm25_rank_text(q, fts, hits[i]))
    }
    &&& forall|i: int, j: int| 0 <= i < j < hits.len() ==> bm25_at_most(q, fts, #[trigger] hits[i], #[trigger] hits[j])
    &&& fts_single(fts) ==> distinct(result_ids(rs.take(hits.len() as int)))
    &&& forall|i: int| hits.len() <= i < rs.len() ==> !(#[trigger] rs[i].basis is FullText)
}

/// The expression that a full-text pass of a search for `clean` runs: the quoted
/// phrase, or, when `clean` uses FTS5 operators, `clean` itself.
pub open spec fn full_text_query(q: Seq<char>, clean: Seq<char>) -> bool {
    q == phrase_of(clean) || (has_fts_syntax(clean) && q == clean)
}

/// `acc` followed by each of `more`, in order, whose entity is not listed yet.
pub open spec fn with_new(acc: Seq<SearchResult>, more: Seq<SearchResult>) -> Seq<SearchResult>
    decreases more.len(),
{
    if more.len() == 0 {
        acc
    } else {
        let w = with_new(acc, more.drop_last());
        if result_ids(w).contains(more.last().entity.id@) {
            w
        } else {
            w.push(more.last())
        }
    }
}

/// `s` cut to at most `limit` items.
pub open spec fn cut(s: Seq<SearchResult>, limit: usize) -> Seq<SearchResult> {
    if limit < s.len() {
        s.take(limit as int)
    } else {
        s
    }
}

/// What `with_new` keeps and adds: `acc` stays in front; each item after it is one of
/// `more` (so has every property `p` that all of `more` have) whose entity is not
/// listed before it; and every entity of `more` is listed.
pub proof fn lemma_with_new(acc: Seq<SearchResult>, more: Seq<SearchResult>, p: spec_fn(SearchResult) -> bool)
    requires
        forall|j: int| 0 <= j < more.len() ==> #[trigger] p(more[j]),
    ensures
        with_new(acc, more).len() >= acc.len(),
        forall|i: int| 0 <= i < acc.len() ==> #[trigger] with_new(acc, more)[i] == acc[i],
        forall|i: int| acc.len() <= i < with_new(acc, more).len() ==> #[trigger] p(with_new(acc, more)[i])
            && !result_ids(with_new(acc, more)).take(i).contains(with_new(acc, more)[i].entity.id@),
        forall|j: int| 0 <= j < more.len() ==> result_ids(with_new(acc, more)).contains(#[trigger] more[j].entity.id@),
    decreases more.len(),
{
    if more.len() > 0 {
        let m0 = more.drop_last();
        assert forall|j: int| 0 <= j < m0.len() implies #[trigger] p(m0[j]) by {
            assert(m0[j] == more[j]);
        }
        lemma_with_new(acc, m0, p);
        let w0 = with_new(acc, m0);
        let x = more.last();
        assert(p(more[more.len() - 1]));
        if result_ids(w0).contains(x.entity.id@) {
            assert forall|j: int| 0 <= j < more.len() implies result_ids(w0).contains(#[trigger] more[j].entity.id@) by {
                if j < m0.len() {
                    assert(more[j] == m0[j]);
                }
            }
        } else {
            let w = w0.push(x);
            assert(result_ids(w) =~= result_ids(w0).push(x.entity.id@));
            assert forall|i: int| acc.len() <= i < w.len() implies #[trigger] p(w[i]) by {
                if i < w0.len() {
                    assert(w[i] == w0[i]);
                }
            }
            assert forall|i: int| acc.len() <= i < w.len() implies !result_ids(w).take(i).contains(#[trigger] w[i].entity.id@) by {
                if i < w0.len() {
                    assert(w[i] == w0[i]);
                    assert(p(w0[i]));
                    assert(result_ids(w).take(i) =~= result_ids(w0).take(i));
                } else {
                    assert(w[i] == x);
                    assert(result_ids(w).take(i) =~= result_ids(w0));
                }
            }
            assert forall|j: int| 0 <= j < more.len() implies result_ids(w).contains(#[trigger] more[j].entity.id@) by {
                if j < m0.len() {
                    assert(more[j] == m0[j]);
                    let k = choose|k: int| 0 <= k < result_ids(w0).len() && result_ids(w0)[k] == m0[j].entity.id@;
                    assert(result_ids(w)[k] == result_ids(w0)[k]);
                } else {
                    assert(result_ids(w)[w0.len() as int] == x.entity.id@);
                }
            }
        }
    }
}

/// The results that the rows of a full-text query give, in order: each row that could
/// be read (`Some`), each row that could not (`None`) skipped.
pub open spec fn read_rows(rows: Seq<Option<SearchResult>>) -> Seq<SearchResult>
    decreases rows.len(),
{
    if rows.len() == 0 {
        Seq::empty()
    } else {
        let r = read_rows(rows.drop_last());
        match rows.last() {
            Some(x) => r.push(x),
            None => r,
        }
    }
}

/// The results of one full-text pass: none when its query failed or was not run
/// (`None`), otherwise the rows that could be read.
pub open spec fn pass_results(outcome: Option<Vec<Option<SearchResult>>>) -> Seq<SearchResult> {
    match outcome {
        Some(rows) => read_rows(rows@),
        None => Seq::empty(),
    }
}

/// A list that opens with the first items of a ranked full-text list `ft` and has no
/// full-text item after them is ranked too (by a prefix of the same entries).
proof fn lemma_ranked_prefix(fts: Multiset<FtsEntry>, ft: Seq<SearchResult>, hits: Seq<FtsEntry>, q: Seq<char>, rs: Seq<SearchResult>)
    requires
        full_text_ranked(fts, ft, hits, q),
        hits.len() == ft.len(),
        forall|i: int| 0 <= i < rs.len() && i < ft.len() ==> #[trigger] rs[i] == ft[i],
        forall|i: int| ft.len() <= i < rs.len() ==> !(#[trigger] rs[i].basis is FullText),
        fts_single(fts) ==> distinct(result_ids(rs)),
    ensures
        exists|h2: Seq<FtsEntry>| #[trigger] full_text_ranked(fts, rs, h2, q),
{
    if rs.len() < hits.len() {
        let h2 = hits.take(rs.len() as int);
        assert forall|i: int| 0 <= i < h2.len() implies {
            &&& #[trigger] h2[i].0 == rs[i].entity.id@
            &&& fts.count(h2[i]) > 0
            &&& fts_match(q, h2[i].1, h2[i].2)
            &&& rank_of(rs[i].basis) == Some(bm25_rank_text(q, fts, h2[i]))
        } by {
            assert(h2[i] == hits[i] && rs[i] == ft[i]);
            assert(hits[i].0 == ft[i].entity.id@);
        }
        assert forall|i: int, j: int| 0 <= i < j < h2.len() implies bm25_at_most(q, fts, #[trigger] h2[i], #[trigger] h2[j]) by {
            assert(h2[i] == hits[i] && h2[j] == hits[j]);
        }
        assert(rs.take(h2.len() as int) =~= rs);
        lemma_ranked_intro(fts, rs, h2, q);
    } else {
        assert forall|i: int| 0 <= i < hits.len() implies {
            &&& #[trigger] hits[i].0 == rs[i].entity.id@
            &&& fts.count(hits[i]) > 0
            &&& fts_match(q, hits[i].1, hits[i].2)
            &&& rank_of(rs[i].basis) == Some(bm25_rank_text(q, fts, hits[i]))
        } by {
            assert(rs[i] == ft[i]);
            assert(hits[i].0 == ft[i].entity.id@);
        }
        if fts_single(fts) {
            assert forall|a: int, b: int| 0 <= a < b < result_ids(rs.take(hits.len() as int)).len()
                implies result_ids(rs.take(hits.len() as int))[a] != result_ids(rs.take(hits.len() as int))[b] by {
                assert(result_ids(rs.take(hits.len() as int))[a] == result_ids(rs)[a]);
                assert(result_ids(rs.take(hits.len() as int))[b] == result_ids(rs)[b]);
            }
        }
        lemma_ranked_intro(fts, rs, hits, q);
    }
}

/// `full_text_ranked` from its parts.
proof fn lemma_ranked_intro(fts: Multiset<FtsEntry>, rs: Seq<SearchResult>, hits: Seq<FtsEntry>, q: Seq<char>)
    requires
        hits.len() <= rs.len(),
        forall|i: int| 0 <= i < hits.len() ==> {
            &&& #[trigger] hits[i].0 == rs[i].entity.id@
            &&& fts.count(hits[i]) > 0
            &&& fts_match(q, hits[i].1, hits[i].2)
            &&& rank_of(rs[i].basis) == Some(bm25_rank_text(q, fts, hits[i]))
        },
        forall|i: int, j: int| 0 <= i < j < hits.len() ==> bm25_at_most(q, fts, #[trigger] hits[i], #[trigger] hits[j]),
        fts_single(fts) ==> distinct(result_ids(rs.take(hits.len() as int))),
        forall|i: int| hits.len() <= i < rs.len() ==> !(#[trigger] rs[i].basis is FullText),
    ensures
        full_text_ranked(fts, rs, hits, q),
{
}

/// The full-text section of a search: the results of the operator pass when it gave
/// any, otherwise those of the quoted-phrase pass.
pub open spec fn full_text_of(op: Option<Vec<Option<SearchResult>>>, phrase: Option<Vec<Option<SearchResult>>>) -> Seq<SearchResult> {
    if pass_results(op).len() > 0 {
        pass_results(op)
    } else {
        pass_results(phrase)
    }
}

/// What a full-text pass with the FTS5 expression `q` over the visible entities of
/// `space`, at most `limit` rows, can give. A failed query gives `None`. Otherwise
/// there are at most `limit` rows; the rows read are visible entities of the space,
/// each found by an index entry that `q` matches, with that entry's BM25 rank, best
/// rank first (`full_text_ranked`); and when every row was read and fewer than `limit`
/// came back, every visible entity of the space with an entry that `q` matches is
/// among them.
pub open spec fn full_text_outcome(
    ents: Map<Seq<char>, EntityRecord>,
    fts: Multiset<FtsEntry>,
    q: Seq<char>,
    space: Seq<char>,
    limit: usize,
    outcome: Option<Vec<Option<SearchResult>>>,
) -> bool {
    match outcome {
        None => true,
        Some(rows) => full_text_rows(ents, fts, q, space, limit, rows@),
    }
}

/// The rows of a full-text pass that ran, as `full_text_outcome` describes them (`None`
/// for a row that could not be read).
pub open spec fn full_text_rows(
    ents: Map<Seq<char>, EntityRecord>,
    fts: Multiset<FtsEntry>,
    q: Seq<char>,
    space: Seq<char>,
    limit: usize,
    rows: Seq<Option<SearchResult>>,
) -> bool {
    &&& rows.len() <= limit
    &&& exists|hits: Seq<FtsEntry>| #[trigger] full_text_ranked(fts, read_rows(rows), hits, q)
        && hits.len() == read_rows(rows).len()
    &&& forall|i: int| 0 <= i < read_rows(rows).len() ==> reads_visible(ents, #[trigger] read_rows(rows)[i].entity, space)
    &&& rows.len() < limit && (forall|i: int| 0 <= i < rows.len() ==> #[trigger] rows[i] is Some)
        ==> forall|k: Seq<char>, e: FtsEntry| #[trigger] ents.contains_key(k) && visible_in(ents[k], space) && e.0 == k
        && #[trigger] fts.count(e) > 0 && fts_match(q, e.1, e.2) ==> result_ids(read_rows(rows)).contains(k)
}

/// The rows of a pass with each row's error set aside: `Some` for a row read, `None`
/// for a row that failed.
pub open spec fn ok_items(rows: Seq<Result<SearchResult, DbError>>) -> Seq<Option<SearchResult>> {
    rows.map_values(|x: Result<SearchResult, DbError>| read_item(x))
}

/// A row read (`Some`) or failed (`None`).
pub open spec fn read_item(x: Result<SearchResult, DbError>) -> Option<SearchResult> {
    match x {
        Ok(v) => Some(v),
        Err(_) => None,
    }
}

/// What one full-text pass returns: the error of its query, or its rows, each read or
/// with its own error, as `full_text_rows` describes. A `DbError` is made only from a
/// failed SQLite call, so a pass whose query succeeded returns its rows.
pub open spec fn full_text_pass(
    ents: Map<Seq<char>, EntityRecord>,
    fts: Multiset<FtsEntry>,
    q: Seq<char>,
    space: Seq<char>,
    limit: usize,
    r: Result<Vec<Result<SearchResult, DbError>>, DbError>,
) -> bool {
    match r {
        Ok(rows) => {
            &&& full_text_rows(ents, fts, q, space, limit, ok_items(rows@))
            &&& forall|i: int| 0 <= i < rows@.len() ==> (#[trigger] rows@[i] matches Err(e) ==> e.is_sql_failure())
        },
        Err(e) => e.is_sql_failure(),
    }
}

/// What the `LIKE` fallback of a search with pattern `pat` gives: at most `limit`
/// visible entities of the space, each once, each matching the pattern, read as
/// stored; all such entities when fewer than `limit`.
pub open spec fn fallback_outcome(
    ents: Map<Seq<char>, EntityRecord>,
    pat: Seq<char>,
    space: Seq<char>,
    limit: usize,
    more: Seq<SearchResult>,
) -> bool {
    &&& more.len() <= limit
    &&& distinct(result_ids(more))
    &&& forall|i: int| 0 <= i < more.len() ==> reads_visible(ents, #[trigger] more[i].entity, space)
        && more[i].basis is Substring && like_either(ents[more[i].entity.id@], pat)
    &&& more.len() < limit ==> forall|k: Seq<char>| #[trigger] ents.contains_key(k) && visible_in(ents[k], space)
        && like_either(ents[k], pat) ==> result_ids(more).contains(k)
}

/// How a search for the non-blank query `q` builds its answer `rs` from the outcomes
/// of its passes: the operator pass (run only when the query without `"` uses FTS5
/// operators), the quoted-phrase pass (run only when the operator pass gave nothing),
/// and the `LIKE` fallback (run only when the full-text section is shorter than
/// `limit`); the answer is the full-text section, then each fallback result not yet
/// listed, cut to `limit`.
pub open spec fn search_built(
    ents: Map<Seq<char>, EntityRecord>,
    fts: Multiset<FtsEntry>,
    q: Seq<char>,
    space: Seq<char>,
    limit: usize,
    op: Option<Vec<Option<SearchResult>>>,
    phrase: Option<Vec<Option<SearchResult>>>,
    more: Seq<SearchResult>,
    rs: Seq<SearchResult>,
) -> bool {
    let clean = without_char(q, '"');
    &&& op is Some ==> has_fts_syntax(clean)
    &&& full_text_outcome(ents, fts, clean, space, limit, op)
    &&& pass_results(op).len() > 0 ==> phrase is None
    &&& full_text_outcome(ents, fts, phrase_of(clean), space, limit, phrase)
    &&& full_text_of(op, phrase).len() < limit ==> fallback_outcome(ents, like_pattern(q), space, limit, more)
    &&& full_text_of(op, phrase).len() >= limit ==> more.len() == 0
    &&& rs == cut(with_new(full_text_of(op, phrase), more), limit)
}

/// What a search answers. Every result is a visible entity of the space, read as
/// stored, and there are at most `limit` of them. For an empty (all white space)
/// query they are the space's most recently created entities, newest first, each
/// once, all of them when fewer than `limit`, and none left out is newer than the
/// last one listed. Otherwise the results open with those found by one full-text
/// pass (the query without `"`, as a phrase or as an FTS5 expression; see
/// `full_text_ranked`): best BM25 rank first, each with its rank. The
/// `LIKE '%query%'` fallback results follow, each repeating no earlier result, and
/// when fewer than `limit` results come back every entity that matches the fallback
/// pattern is among them. When every entity has at most one index entry, no entity
/// comes twice. The answer is built from the outcomes of its passes as `search_built`
/// describes: a pass that ran, read every row and came back short of `limit` lists
/// every match of its expression.
pub open spec fn search_answer(
    ents: Map<Seq<char>, EntityRecord>,
    fts: Multiset<FtsEntry>,
    rs: Seq<SearchResult>,
    query: Seq<char>,
    space: Seq<char>,
    limit: usize,
) -> bool {
    let q = trimmed(query);
    let clean = without_char(q, '"');
    &&& rs.len() <= limit
    &&& forall|i: int| 0 <= i < rs.len() ==> reads_visible(ents, #[trigger] rs[i].entity, space)
    &&& q.len() == 0 ==> {
        &&& forall|i: int| 0 <= i < rs.len() ==> #[trigger] rs[i].basis is Recent
        &&& distinct(result_ids(rs))
        &&& forall|i: int| 0 <= i < rs.len() - 1 ==> text_le(#[trigger] rs[i + 1].entity.created_at@, rs[i].entity.created_at@)
        &&& rs.len() < limit ==> forall|k: Seq<char>| #[trigger] ents.contains_key(k) && visible_in(ents[k], space)
            ==> result_ids(rs).contains(k)
        &&& rs.len() > 0 ==> forall|k: Seq<char>| #[trigger] ents.contains_key(k) && visible_in(ents[k], space)
            && !result_ids(rs).contains(k) ==> text_le(ents[k].created_at, rs[rs.len() - 1].entity.created_at@)
    }
    &&& q.len() > 0 ==> {
        &&& forall|i: int| 0 <= i < rs.len() ==> !(#[trigger] rs[i].basis is Recent)
        &&& exists|op: Option<Vec<Option<SearchResult>>>, phrase: Option<Vec<Option<SearchResult>>>, more: Seq<SearchResult>|
            #[trigger] search_built(ents, fts, trimmed(query), space, limit, op, phrase, more, rs)
        &&& exists|q2: Seq<char>, hits: Seq<FtsEntry>| #[trigger] full_text_ranked(fts, rs, hits, q2) && full_text_query(q2, clean)
        &&& fts_single(fts) ==> distinct(result_ids(rs))
        &&& forall|i: int| 0 <= i < rs.len() && #[trigger] rs[i].basis is Substring ==> like_either(ents[rs[i].entity.id@], like_pattern(q))
            && !result_ids(rs).take(i).contains(rs[i].entity.id@)
        &&& rs.len() < limit ==> forall|k: Seq<char>| #[trigger] ents.contains_key(k) && visible_in(ents[k], space)
            && like_either(ents[k], like_pattern(q)) ==> result_ids(rs).contains(k)
    }
}

fn db_error(e: rusqlite::Error) -> (r: DbError)
    ensures
        r.is_sql_failure(),
{
    DbError::from_sql(&e)
}

/// The space a request means, as text.
pub fn target_space(space: Option<&str>) -> (r: String)
    ensures
        r@ == space_or_default(space.deep_view()),
{
    match space {
        Some(s) => String::from_str(s),
        None => default_space(),
    }
}

/// The entity that a stored row reads as: the row's fields, with the alias list
/// read from its JSON text.
fn entity_of_row(row: EntityRow) -> (e: CortexEntity)
    ensures
        e.id == row.id,
        e.confidence == row.confidence,
        entity_reads(e, row.id@, row.record(None)),
{
    let aliases = match strings_from_json(row.aliases_json.as_str()) {
        Ok(v) => v,
        Err(_) => Vec::new(),
    };
    proof {
        assert(aliases.deep_view() =~= aliases_of(row.aliases_json@));
    }
    CortexEntity {
        id: row.id,
        space_id: row.space_id,
        space_slug: row.space_slug,
        entity_type: row.entity_type,
        canonical_name: row.canonical_name,
        content: row.content,
        aliases,
        metadata: row.metadata_json,
        confidence: row.confidence,
        revision: row.revision,
        retracted: row.retracted,
        valid_from: row.valid_from,
        valid_to: row.valid_to,
        created_at: row.created_at,
    }
}

/// The claim that a stored row reads as.
fn claim_of_row(row: ClaimRow) -> (c: CortexClaim)
    ensures
        c.id == row.id,
        c.confidence == row.confidence,
        claim_reads(c, row.id@, row.record()),
{
    CortexClaim {
        id: row.id,
        space_id: row.space_id,
        space_slug: row.space_slug,
        subject_entity_id: row.subject_entity_id,
        predicate: row.predicate,
        object_entity_id: row.object_entity_id,
        literal_value: row.literal_value_json,
        confidence: row.confidence,
        metadata: row.metadata_json,
        retracted: row.retracted,
        created_at: row.created_at,
    }
}

/// Whether some result already has entity id `id`.
fn has_result_id(results: &Vec<SearchResult>, id: &String) -> (r: bool)
    ensures
        r == result_ids(results@).contains(id@),
{
    let mut i: usize = 0;
    while i < results.len()
        invariant
            i <= results@.len(),
            forall|j: int| 0 <= j < i ==> results@[j].entity.id@ != id@,
        decreases results@.len() - i,
    {
        if results[i].entity.id == *id {
            assert(result_ids(results@)[i as int] == id@);
            return true;
        }
        i = i + 1;
    }
    false
}

/// The FTS5 operators that make a query an expression rather than a phrase.
pub open spec fn has_fts_syntax(q: Seq<char>) -> bool {
    ||| contains_text(q, " AND "@)
    ||| contains_text(q, " OR "@)
    ||| contains_text(q, " NOT "@)
    ||| q.contains('*')
}

/// Whether the query uses FTS5 operators: ` AND `, ` OR `, ` NOT ` or `*`.
pub fn has_fts_operators(q: &Vec<char>) -> (r: bool)
    ensures
        r == has_fts_syntax(q@),
{
    let and_op = chars_of(" AND ");
    let or_op = chars_of(" OR ");
    let not_op = chars_of(" NOT ");
    let star = chars_of("*");
    let r = contains(q, &and_op) || contains(q, &or_op) || contains(q, &not_op) || contains(q, &star);
    proof {
        reveal_strlit("*");
        assert(star@ =~= seq!['*']);
        if q@.contains('*') {
            let i = choose|i: int| 0 <= i < q@.len() && q@[i] == '*';
            assert(q@.subrange(i, i + star@.len()) =~= star@);
        }
        if contains_text(q@, star@) {
            let i = choose|i: int| 0 <= i <= q@.len() - star@.len() && #[trigger] q@.subrange(i, i + star@.len()) == star@;
            assert(q@.subrange(i, i + star@.len())[0] == q@[i]);
        }
    }
    r
}

/// If every id of the distinct list `a` is among the ids `b`, `b` is at least as long.
proof fn lemma_covering_is_longer(a: Seq<Seq<char>>, b: Seq<Seq<char>>)
    requires
        distinct(a),
        forall|i: int| 0 <= i < a.len() ==> b.contains(#[trigger] a[i]),
    ensures
        b.len() >= a.len(),
{
    assert(a.no_duplicates()) by {
        assert forall|i: int, j: int| 0 <= i < a.len() && 0 <= j < a.len() && i != j implies a[i] != a[j] by {
            if i > j {
                assert(a[j] != a[i]);
            }
        }
    }
    a.unique_seq_to_set();
    b.lemma_cardinality_of_set();
    vstd::seq_lib::seq_to_set_is_finite(b);
    assert(a.to_set().subset_of(b.to_set())) by {
        assert forall|x: Seq<char>| a.to_set().contains(x) implies b.to_set().contains(x) by {
            let i = choose|i: int| 0 <= i < a.len() && a[i] == x;
            assert(b.contains(a[i]));
        }
    }
    vstd::set_lib::lemma_len_subset(a.to_set(), b.to_set());
}

/// The answer of a search from its full-text results `ft` and its fallback results
/// `more`: `ft` in order, then each of `more` whose entity is not listed yet, cut to
/// `limit`.
pub fn merge_fallback(ft: Vec<SearchResult>, more: Vec<SearchResult>, limit: usize) -> (r: Vec<SearchResult>)
    ensures
        r@ == cut(with_new(ft@, more@), limit),
{
    let ghost all = more@;
    let mut out = ft;
    let mut rest = more;
    let ghost mut used: int = 0;
    while rest.len() > 0
        invariant
            0 <= used <= all.len(),
            rest@ == all.skip(used),
            out@ == with_new(ft@, all.take(used)),
        decreases rest@.len(),
    {
        let x = rest.remove(0);
        proof {
            assert(x == all[used]);
            assert(all.take(used + 1).drop_last() =~= all.take(used));
            assert(all.take(used + 1).last() == x);
        }
        if !has_result_id(&out, &x.entity.id) {
            out.push(x);
        }
        proof {
            used = used + 1;
            assert(rest@ =~= all.skip(used));
        }
    }
    assert(all.take(used) =~= all);
    out.truncate(limit);
    proof {
        let w = with_new(ft@, all);
        if limit < w.len() {
            assert(out@ =~= w.take(limit as int));
        } else {
            assert(out@ =~= w);
        }
    }
    out
}

/// A search answer built as `search_built` describes (from outcomes that each pass
/// and the fallback can give) is an answer as `search_answer` describes.
pub proof fn lemma_search_answer(
    ents: Map<Seq<char>, EntityRecord>,
    fts: Multiset<FtsEntry>,
    query: Seq<char>,
    space: Seq<char>,
    limit: usize,
    op: Option<Vec<Option<SearchResult>>>,
    phrase: Option<Vec<Option<SearchResult>>>,
    ft: Seq<SearchResult>,
    more: Seq<SearchResult>,
    rs: Seq<SearchResult>,
)
    requires
        trimmed(query).len() > 0,
        op is Some ==> has_fts_syntax(without_char(trimmed(query), '"')),
        full_text_outcome(ents, fts, without_char(trimmed(query), '"'), space, limit, op),
        pass_results(op).len() > 0 ==> phrase is None,
        full_text_outcome(ents, fts, phrase_of(without_char(trimmed(query), '"')), space, limit, phrase),
        ft == full_text_of(op, phrase),
        ft.len() < limit ==> fallback_outcome(ents, like_pattern(trimmed(query)), space, limit, more),
        ft.len() >= limit ==> more.len() == 0,
        rs == cut(with_new(ft, more), limit),
    ensures
        search_built(ents, fts, trimmed(query), space, limit, op, phrase, more, rs),
        search_answer(ents, fts, rs, query, space, limit),
{
    let q = trimmed(query);
    let clean = without_char(q, '"');
    let q2: Seq<char> = if pass_results(op).len() > 0 { clean } else { phrase_of(clean) };
    let chosen = if pass_results(op).len() > 0 { op } else { phrase };
    assert(full_text_outcome(ents, fts, q2, space, limit, chosen));
    assert(ft == pass_results(chosen));
    let hits: Seq<FtsEntry> = if chosen is Some {
        choose|h: Seq<FtsEntry>| #[trigger] full_text_ranked(fts, read_rows(chosen->0@), h, q2)
            && h.len() == read_rows(chosen->0@).len()
    } else {
        Seq::empty()
    };
    if chosen is None {
        assert(ft.take(0) =~= ft);
    }
    assert(full_text_query(q2, clean));
    assert(hits.len() == ft.len());
    assert(full_text_ranked(fts, ft, hits, q2));
    assert(forall|j: int| 0 <= j < ft.len() ==> reads_visible(ents, #[trigger] ft[j].entity, space));
    assert forall|j: int| 0 <= j < ft.len() implies #[trigger] ft[j].basis is FullText by {
        assert(hits[j].0 == ft[j].entity.id@);
    }
    assert(ft.take(hits.len() as int) =~= ft);
    let pat = like_pattern(q);
    let p = |r: SearchResult| reads_visible(ents, r.entity, space) && r.basis is Substring && like_either(ents[r.entity.id@], pat);
    assert forall|j: int| 0 <= j < more.len() implies #[trigger] p(more[j]) by {}
    lemma_with_new(ft, more, p);
    let w = with_new(ft, more);
    let m: int = if limit < w.len() { limit as int } else { w.len() as int };
    assert(rs =~= w.take(m));
    assert forall|i: int| 0 <= i < rs.len() implies #[trigger] rs[i] == w[i] by {}
    assert forall|i: int| 0 <= i < rs.len() implies reads_visible(ents, #[trigger] rs[i].entity, space)
        && !(rs[i].basis is Recent) by {
        if i < ft.len() {
            assert(rs[i] == ft[i]);
        } else {
            assert(p(w[i]));
        }
    }
    assert forall|i: int| 0 <= i < rs.len() && #[trigger] rs[i].basis is Substring implies like_either(ents[rs[i].entity.id@], pat)
        && !result_ids(rs).take(i).contains(rs[i].entity.id@) by {
        if i < ft.len() {
            assert(rs[i] == ft[i]);
        } else {
            assert(p(w[i]));
            assert(result_ids(rs).take(i) =~= result_ids(w).take(i));
        }
    }
    // The full-text part.
    assert forall|i: int| 0 <= i < rs.len() && i < ft.len() implies #[trigger] rs[i] == ft[i] by {}
    assert forall|i: int| ft.len() <= i < rs.len() implies !(#[trigger] rs[i].basis is FullText) by {
        assert(p(w[i]));
    }
    if fts_single(fts) {
        assert(distinct(result_ids(ft)));
        assert forall|a: int, b: int| 0 <= a < b < result_ids(rs).len()
            implies result_ids(rs)[a] != result_ids(rs)[b] by {
            if b < ft.len() {
                assert(result_ids(rs)[a] == result_ids(ft)[a]);
                assert(result_ids(rs)[b] == result_ids(ft)[b]);
            } else {
                assert(result_ids(rs).take(b) =~= result_ids(w).take(b));
                assert(result_ids(rs).take(b)[a] == result_ids(rs)[a]);
            }
        }
    }
    lemma_ranked_prefix(fts, ft, hits, q2, rs);
    // Completeness of the fallback.
    if rs.len() < limit {
        assert(ft.len() < limit);
        if more.len() == limit {
            assert forall|j: int| 0 <= j < result_ids(more).len() implies result_ids(w).contains(#[trigger] result_ids(more)[j]) by {
                assert(result_ids(more)[j] == more[j].entity.id@);
            }
            lemma_covering_is_longer(result_ids(more), result_ids(w));
        } else {
            assert(rs =~= w);
            assert forall|k: Seq<char>| #[trigger] ents.contains_key(k) && visible_in(ents[k], space)
                && like_either(ents[k], pat) implies result_ids(rs).contains(k) by {
                let j = choose|j: int| 0 <= j < result_ids(more).len() && result_ids(more)[j] == k;
                assert(more[j].entity.id@ == k);
            }
        }
    }
    assert(search_built(ents, fts, q, space, limit, op, phrase, more, rs));
}

/// The results read from one full-text pass, as `pass_results` describes.
fn rows_read(outcome: Option<Vec<Option<SearchResult>>>) -> (r: Vec<SearchResult>)
    ensures
        r@ == pass_results(outcome),
{
    let mut out: Vec<SearchResult> = Vec::new();
    match outcome {
        None => out,
        Some(rows) => {
            let ghost all = rows@;
            let mut rest = rows;
            let ghost mut used: int = 0;
            while rest.len() > 0
                invariant
                    0 <= used <= all.len(),
                    rest@ == all.skip(used),
                    out@ == read_rows(all.take(used)),
                decreases rest@.len(),
            {
                let x = rest.remove(0);
                proof {
                    assert(x == all[used]);
                    assert(all.take(used + 1).drop_last() =~= all.take(used));
                    assert(all.take(used + 1).last() == x);
                }
                match x {
                    Some(res) => out.push(res),
                    None => {},
                }
                proof {
                    used = used + 1;
                    assert(rest@ =~= all.skip(used));
                }
            }
            assert(all.take(used) =~= all);
            out
        },
    }
}

/// A pass's result in the form the search builds on: `None` for a failed query,
/// otherwise each row read (`Some`) or failed (`None`), in order.
fn as_outcome(r: Result<Vec<Result<SearchResult, DbError>>, DbError>) -> (o: Option<Vec<Option<SearchResult>>>)
    ensures
        match r {
            Ok(rows) => o matches Some(v) && v@ == ok_items(rows@),
            Err(_) => o is None,
        },
{
    match r {
        Err(_) => None,
        Ok(rows) => {
            let ghost all = rows@;
            let mut rest = rows;
            let mut out: Vec<Option<SearchResult>> = Vec::new();
            let ghost mut used: int = 0;
            while rest.len() > 0
                invariant
                    0 <= used <= all.len(),
                    rest@ == all.skip(used),
                    out@ == ok_items(all.take(used)),
                decreases rest@.len(),
            {
                let x = rest.remove(0);
                proof {
                    assert(x == all[used]);
                }
                match x {
                    Ok(v) => out.push(Some(v)),
                    Err(_) => out.push(None),
                }
                proof {
                    used = used + 1;
                    assert(rest@ =~= all.skip(used));
                    assert(out@ =~= ok_items(all.take(used)));
                }
            }
            assert(all.take(used) =~= all);
            Some(out)
        },
    }
}

/// Whether a full-text pass gave any results.
fn gave_results(outcome: &Option<Vec<Option<SearchResult>>>) -> (r: bool)
    ensures
        r == (pass_results(*outcome).len() > 0),
{
    match outcome {
        None => false,
        Some(rows) => {
            let mut count: usize = 0;
            let mut i: usize = 0;
            while i < rows.len()
                invariant
                    i <= rows@.len(),
                    count <= i,
                    count == read_rows(rows@.take(i as int)).len(),
                decreases rows@.len() - i,
            {
                proof {
                    assert(rows@.take(i + 1).drop_last() =~= rows@.take(i as int));
                }
                match &rows[i] {
                    Some(_) => {
                        count = count + 1;
                    },
                    None => {},
                }
                i = i + 1;
            }
            assert(rows@.take(rows@.len() as int) =~= rows@);
            count > 0
        },
    }
}

/// The full-text section of a search from the outcomes of its two passes (`None`
/// for a pass whose query failed or that was not run): the results of the operator
/// pass when it gave any, otherwise those of the quoted-phrase pass.
pub fn full_text_section(op: Option<Vec<Option<SearchResult>>>, phrase: Option<Vec<Option<SearchResult>>>) -> (r: Vec<SearchResult>)
    ensures
        r@ == full_text_of(op, phrase),
{
    let a = rows_read(op);
    if a.len() > 0 {
        a
    } else {
        rows_read(phrase)
    }
}

impl Database {
    /// The database file the store was opened on (`None` for an in-memory store).
    pub closed spec fn file(&self) -> Option<Seq<char>> {
        self.conn.file()
    }

    /// The contents of the store.
    pub closed spec fn tables(&self) -> Tables {
        Tables {
            entities: entity_table(self.conn.connection()),
            claims: claim_table(self.conn.connection()),
            spaces: space_table(self.conn.connection()),
            fts: fts_table(self.conn.connection()),
        }
    }

    /// Opens (or creates) the store in the database file at `path`, in write-ahead
    /// logging mode, and makes sure its tables and the `atlas-memory` space exist.
    /// What the file already holds is not stated.
    pub fn open(path: &str) -> (r: Result<Database, DbError>)
        ensures
            r matches Ok(db) ==> db.file() == Some(path@),
            r matches Err(e) ==> e.is_sql_failure(),
    {
        let conn = match open_file_handle(path) {
            Ok(c) => c,
            Err(e) => return Err(db_error(e)),
        };
        let _ = set_wal_journal(&conn);
        match set_pragmas(&conn) {
            Ok(()) => {},
            Err(e) => return Err(db_error(e)),
        }
        let mut db = Database { conn };
        match db.init_schema() {
            Ok(()) => Ok(db),
            Err(e) => Err(e),
        }
    }

    /// Opens a fresh store in memory: no entities, claims or index entries, and at
    /// most the `atlas-memory` space.
    pub fn open_in_memory() -> (r: Result<Database, DbError>)
        ensures
            r matches Ok(db) ==> db.file() is None,
            r matches Err(e) ==> e.is_sql_failure(),
            match r {
                Ok(db) => {
                    &&& db.tables().entities.is_empty()
                    &&& db.tables().claims.is_empty()
                    &&& db.tables().fts =~= Multiset::empty()
                    &&& db.tables().spaces.is_empty() || db.tables().spaces.dom() =~= set![default_space_name()]
                    &&& space_ids_distinct(db.tables().spaces)
                },
                Err(_) => true,
            },
    {
        let conn = match open_memory_handle() {
            Ok(c) => c,
            Err(e) => return Err(db_error(e)),
        };
        let mut db = Database { conn };
        match db.init_schema() {
            Ok(()) => {
                proof {
                    if !db.tables().spaces.is_empty() {
                        assert(db.tables().spaces.dom() =~= set![default_space_name()]);
                    }
                }
                Ok(db)
            },
            Err(e) => Err(e),
        }
    }

    /// Creates the missing tables and indexes, then adds the `atlas-memory` space if
    /// it is missing (a failure to add it is ignored).
    fn init_schema(&mut self) -> (r: Result<(), DbError>)
        ensures
            final(self).file() == old(self).file(),
            r matches Err(e) ==> e.is_sql_failure(),
            space_ids_distinct(old(self).tables().spaces) ==> space_ids_distinct(final(self).tables().spaces),
            r is Err ==> final(self).tables() == old(self).tables(),
            final(self).tables().entities == old(self).tables().entities,
            final(self).tables().claims == old(self).tables().claims,
            final(self).tables().fts == old(self).tables().fts,
            old(self).tables().spaces.contains_key(default_space_name()) ==> final(self).tables().spaces == old(
                self,
            ).tables().spaces,
            final(self).tables().spaces == old(self).tables().spaces || (exists|id: Seq<char>|
                final(self).tables().spaces == old(self).tables().spaces.insert(default_space_name(), id)),
    {
        match create_schema(&self.conn) {
            Ok(()) => {},
            Err(e) => return Err(db_error(e)),
        }
        let space_id = new_uuid();
        let now = now_rfc3339();
        let slug = default_space();
        let ghost before = self.tables().spaces;
        let _ = insert_space_or_ignore(&mut self.conn, space_id.as_str(), slug.as_str(), now.as_str());
        proof {
            if space_ids_distinct(before) && !space_id_taken(before, space_id@) {
                lemma_fresh_space_keeps_ids_distinct(before, slug@, space_id@);
            }
        }
        Ok(())
    }

    /// The id of space `slug`, which is added (with a fresh id) when it is missing.
    pub fn ensure_space(&mut self, slug: &str) -> (r: Result<String, DbError>)
        ensures
            final(self).file() == old(self).file(),
            r matches Err(e) ==> e.is_sql_failure(),
            final(self).tables().entities == old(self).tables().entities,
            final(self).tables().claims == old(self).tables().claims,
            final(self).tables().fts == old(self).tables().fts,
            space_ids_distinct(old(self).tables().spaces) ==> space_ids_distinct(final(self).tables().spaces),
            match r {
                Ok(id) => space_ensured(old(self).tables().spaces, final(self).tables().spaces, slug@)
                    && final(self).tables().spaces[slug@] == id@
                    && (!old(self).tables().spaces.contains_key(slug@) ==> is_uuid_v4_text(id@)),
                Err(_) => final(self).tables().spaces == old(self).tables().spaces,
            },
    {
        match space_id_of(&self.conn, slug) {
            Err(e) => Err(db_error(e)),
            Ok(Some(id)) => {
                assert(self.tables().spaces.insert(slug@, id@) =~= self.tables().spaces);
                Ok(id)
            },
            Ok(None) => {
                let new_id = new_uuid();
                let now = now_rfc3339();
                let ghost before = self.tables().spaces;
                match insert_space(&mut self.conn, new_id.as_str(), slug, now.as_str()) {
                    Ok(_) => {
                        proof {
                            if space_ids_distinct(before) {
                                lemma_fresh_space_keeps_ids_distinct(before, slug@, new_id@);
                            }
                        }
                        Ok(new_id)
                    },
                    Err(e) => Err(db_error(e)),
                }
            },
        }
    }

    /// Looks up a visible entity of the space (default `atlas-memory`) by id or by
    /// canonical name. `None` exactly when there is no such entity; when several
    /// match, which one comes back is not stated.
    pub fn get_entity(&self, id_or_name: &str, space: Option<&str>) -> (r: Result<Option<CortexEntity>, DbError>)
        ensures
            r matches Err(e) ==> e.is_sql_failure(),
            match r {
                Ok(Some(e)) => {
                    let sp = space_or_default(space.deep_view());
                    &&& matches_key(self.tables().entities, e.id@, id_or_name@, sp)
                    &&& entity_reads(e, e.id@, self.tables().entities[e.id@])
                },
                Ok(None) => forall|k: Seq<char>|
                    !#[trigger] matches_key(self.tables().entities, k, id_or_name@, space_or_default(space.deep_view())),
                Err(_) => true,
            },
    {
        let target = target_space(space);
        match visible_entity_id(&self.conn, id_or_name, target.as_str()) {
            Err(e) => Err(db_error(e)),
            Ok(None) => Ok(None),
            Ok(Some(id)) => match entity_by_id(&self.conn, id.as_str()) {
                Err(e) => Err(db_error(e)),
                Ok(None) => Ok(None),
                Ok(Some(row)) => {
                    let e = entity_of_row(row);
                    Ok(Some(e))
                },
            },
        }
    }
    /// Creates or updates an entity, as `entity_upserted` describes, and refreshes its
    /// full-text index entry (a failure there is ignored). On failure the entities,
    /// claims and index are unchanged, though the space may have been added.
    pub fn upsert_entity(&mut self, input: &EntityWriteInput, embedding: Option<&[u8]>) -> (r: Result<ReceiptDetails, DbError>)
        ensures
            final(self).file() == old(self).file(),
            r matches Err(e) ==> e.is_sql_failure() || (!name_taken(old(self).tables().entities, input.space@, input.canonical_name@) && input.id is None),
            space_ids_distinct(old(self).tables().spaces) ==> space_ids_distinct(final(self).tables().spaces),
            match r {
                Ok(rc) => entity_upserted(old(self).tables(), final(self).tables(), *input, embedding.deep_view(), rc),
                Err(_) => {
                    &&& final(self).tables().entities == old(self).tables().entities
                    &&& final(self).tables().claims == old(self).tables().claims
                    &&& final(self).tables().fts == old(self).tables().fts
                },
            },
    {
        let ghost before = self.tables();
        let space_id = match self.ensure_space(input.space.as_str()) {
            Ok(id) => id,
            Err(e) => return Err(e),
        };
        let ghost mid = self.tables();
        let now = now_rfc3339();
        let aliases_json = match strings_to_json(&input.aliases) {
            Ok(s) => s,
            Err(_) => String::from_str("[]"),
        };
        let found = match entity_named(&self.conn, input.space.as_str(), input.canonical_name.as_str()) {
            Ok(f) => f,
            Err(e) => return Err(db_error(e)),
        };
        let (target_id, revision) = match found {
            Some((id, rev)) => {
                let next = if rev < i64::MAX { rev + 1 } else { i64::MIN };
                (id, next)
            },
            None => {
                let id = match &input.id {
                    Some(id) => id.clone(),
                    None => {
                        let fresh = new_uuid();
                        match entity_by_id(&self.conn, fresh.as_str()) {
                            Ok(None) => fresh,
                            Ok(Some(_)) => return Err(DbError::generated_id_taken()),
                            Err(e) => return Err(db_error(e)),
                        }
                    },
                };
                (id, 1i64)
            },
        };
        proof {
            if found is Some {
                assert(name_taken(before.entities, input.space@, input.canonical_name@));
            }
        }
        let row = EntityRow {
            id: target_id.clone(),
            space_id,
            space_slug: input.space.clone(),
            entity_type: input.entity_type.clone(),
            canonical_name: input.canonical_name.clone(),
            content: input.content.clone(),
            aliases_json,
            metadata_json: input.metadata.clone(),
            confidence: input.confidence.clone(),
            revision,
            retracted: false,
            valid_from: input.valid_from.clone(),
            valid_to: input.valid_to.clone(),
            created_at: now.clone(),
        };
        match upsert_entity_row(&mut self.conn, &row, embedding) {
            Ok(_) => {},
            Err(e) => return Err(db_error(e)),
        }
        let ghost written = self.tables();
        self.refresh_index(target_id.as_str(), input.canonical_name.as_str(), input.content.as_str(), input.space.as_str());
        let rc = ReceiptDetails {
            id: new_uuid(),
            operation: String::from_str("entity.upsert"),
            target_type: String::from_str("entity"),
            target_id,
            committed_at: now,
        };
        proof {
            reveal_strlit("entity.upsert");
            reveal_strlit("entity");
            let after = self.tables();
            assert(after.entities == written.entities);
            assert(after.entities.contains_key(rc.target_id@));
        }
        Ok(rc)
    }
    /// Creates or updates a claim, as `claim_upserted` describes. On failure the
    /// entities, claims and index are unchanged, though the space may have been added.
    pub fn upsert_claim(&mut self, input: &ClaimWriteInput) -> (r: Result<ReceiptDetails, DbError>)
        ensures
            final(self).file() == old(self).file(),
            r matches Err(e) ==> e.is_sql_failure() || (input.id is None),
            space_ids_distinct(old(self).tables().spaces) ==> space_ids_distinct(final(self).tables().spaces),
            match r {
                Ok(rc) => claim_upserted(old(self).tables(), final(self).tables(), *input, rc),
                Err(_) => {
                    &&& final(self).tables().entities == old(self).tables().entities
                    &&& final(self).tables().claims == old(self).tables().claims
                    &&& final(self).tables().fts == old(self).tables().fts
                },
            },
    {
        let space_id = match self.ensure_space(input.space.as_str()) {
            Ok(id) => id,
            Err(e) => return Err(e),
        };
        let now = now_rfc3339();
        let claim_id = match &input.id {
            Some(id) => id.clone(),
            None => {
                let fresh = new_uuid();
                match claim_by_id(&self.conn, fresh.as_str()) {
                    Ok(None) => fresh,
                    Ok(Some(_)) => return Err(DbError::generated_id_taken()),
                    Err(e) => return Err(db_error(e)),
                }
            },
        };
        let row = ClaimRow {
            id: claim_id.clone(),
            space_id,
            space_slug: input.space.clone(),
            subject_entity_id: input.subject_entity_id.clone(),
            predicate: input.predicate.clone(),
            object_entity_id: input.object_entity_id.clone(),
            literal_value_json: input.literal_value.clone(),
            confidence: input.confidence.clone(),
            metadata_json: input.metadata.clone(),
            retracted: false,
            created_at: now.clone(),
        };
        match upsert_claim_row(&mut self.conn, &row) {
            Ok(_) => {},
            Err(e) => return Err(db_error(e)),
        }
        let rc = ReceiptDetails {
            id: new_uuid(),
            operation: String::from_str("claim.upsert"),
            target_type: String::from_str("claim"),
            target_id: claim_id,
            committed_at: now,
        };
        proof {
            reveal_strlit("claim.upsert");
            reveal_strlit("claim");
        }
        Ok(rc)
    }

    /// Retracts an entity (and drops its index entries) or a claim, as
    /// `target_retracted` describes; any other target type changes nothing. The
    /// receipt names the operation `<target_type>.retract`.
    pub fn retract_target(&mut self, target_type: &str, target_id: &str) -> (r: Result<ReceiptDetails, DbError>)
        ensures
            final(self).file() == old(self).file(),
            r matches Err(e) ==> e.is_sql_failure(),
            target_type@ != "entity"@ && target_type@ != "claim"@ ==> r is Ok,
            match r {
                Ok(rc) => {
                    &&& target_retracted(old(self).tables(), final(self).tables(), target_type@, target_id@)
                    &&& rc.operation@ == target_type@ + ".retract"@
                    &&& is_uuid_v4_text(rc.id@)
                    &&& is_utc_time_text(rc.committed_at@)
                    &&& rc.target_type@ == target_type@
                    &&& rc.target_id@ == target_id@
                },
                Err(_) => {
                    &&& final(self).tables().spaces == old(self).tables().spaces
                    &&& target_type@ != "claim"@ ==> final(self).tables().claims == old(self).tables().claims
                    &&& target_type@ != "entity"@ ==> final(self).tables().entities == old(self).tables().entities
                    &&& target_type@ != "entity"@ ==> final(self).tables().fts == old(self).tables().fts
                },
            },
    {
        let now = now_rfc3339();
        let kind = String::from_str(target_type);
        let entity_kind = String::from_str("entity");
        let claim_kind = String::from_str("claim");
        proof {
            reveal_strlit("entity");
            reveal_strlit("claim");
        }
        if kind == entity_kind {
            match retract_entity_row(&mut self.conn, target_id) {
                Ok(_) => {},
                Err(e) => return Err(db_error(e)),
            }
            match delete_fts_rows(&mut self.conn, target_id) {
                Ok(_) => {},
                Err(e) => return Err(db_error(e)),
            }
        } else if kind == claim_kind {
            match retract_claim_row(&mut self.conn, target_id) {
                Ok(_) => {},
                Err(e) => return Err(db_error(e)),
            }
        }
        let operation = kind.concat(".retract");
        let rc = ReceiptDetails {
            id: new_uuid(),
            operation,
            target_type: String::from_str(target_type),
            target_id: String::from_str(target_id),
            committed_at: now,
        };
        Ok(rc)
    }

    /// Writes entity `e` as it is (an import from another store), as
    /// `entity_imported` describes, and refreshes its full-text index entry (a
    /// failure there is ignored). On failure the store is unchanged.
    pub fn import_entity_raw(&mut self, e: &CortexEntity, embedding: Option<&[u8]>) -> (r: Result<(), DbError>)
        ensures
            final(self).file() == old(self).file(),
            r matches Err(e) ==> e.is_sql_failure(),
            match r {
                Ok(()) => entity_imported(old(self).tables(), final(self).tables(), *e, embedding.deep_view()),
                Err(_) => final(self).tables() == old(self).tables(),
            },
    {
        let aliases_json = match strings_to_json(&e.aliases) {
            Ok(s) => s,
            Err(_) => String::from_str("[]"),
        };
        let row = EntityRow {
            id: e.id.clone(),
            space_id: e.space_id.clone(),
            space_slug: e.space_slug.clone(),
            entity_type: e.entity_type.clone(),
            canonical_name: e.canonical_name.clone(),
            content: e.content.clone(),
            aliases_json,
            metadata_json: e.metadata.clone(),
            confidence: e.confidence.clone(),
            revision: e.revision,
            retracted: e.retracted,
            valid_from: e.valid_from.clone(),
            valid_to: e.valid_to.clone(),
            created_at: e.created_at.clone(),
        };
        match import_entity_row(&mut self.conn, &row, embedding) {
            Ok(_) => {},
            Err(err) => return Err(db_error(err)),
        }
        let ghost written = self.tables();
        self.refresh_index(e.id.as_str(), e.canonical_name.as_str(), e.content.as_str(), e.space_slug.as_str());
        assert(self.tables().entities == written.entities);
        Ok(())
    }
    /// Replaces the index entries of entity `id` by one entry for its name and content;
    /// a failure of either step is ignored, as `fts_refreshed` describes.
    fn refresh_index(&mut self, id: &str, name: &str, content: &str, space: &str)
        ensures
            final(self).file() == old(self).file(),
            final(self).tables().entities == old(self).tables().entities,
            final(self).tables().claims == old(self).tables().claims,
            final(self).tables().spaces == old(self).tables().spaces,
            fts_refreshed(old(self).tables().fts, final(self).tables().fts, id@, (id@, name@, content@, space@)),
    {
        let ghost before = self.tables().fts;
        let dropped = delete_fts_rows(&mut self.conn, id);
        let ghost mid = self.tables().fts;
        let added = insert_fts_row(&mut self.conn, id, name, content, space);
        proof {
            let entry = (id@, name@, content@, space@);
            let kept = dropped is Err;
            let add = added is Ok;
            let after = self.tables().fts;
            assert forall|e: FtsEntry| #[trigger] after.count(e) == if e.0 == id@ {
                (if kept { before.count(e) } else { 0nat }) + (if add && e == entry { 1nat } else { 0nat })
            } else {
                before.count(e)
            } by {
                assert(mid.count(e) == if e.0 == id@ && !kept { 0nat } else { before.count(e) });
            }
            assert(fts_refreshed_as(before, after, id@, entry, kept, add));
        }
    }

    /// The stored entity `id`, read as lookups return it.
    fn load_entity(&self, id: &str) -> (r: Result<CortexEntity, DbError>)
        requires
            self.tables().entities.contains_key(id@),
        ensures
            r matches Err(e) ==> e.is_sql_failure(),
            match r {
                Ok(e) => entity_reads(e, id@, self.tables().entities[id@]),
                Err(_) => true,
            },
    {
        match entity_by_id(&self.conn, id) {
            Ok(Some(row)) => Ok(entity_of_row(row)),
            Ok(None) => unreached(),
            Err(e) => Err(db_error(e)),
        }
    }

    /// One full-text pass with the FTS5 expression `query` over the visible entities of
    /// `space`, at most `limit` rows, as `full_text_outcome` describes: `None` when the
    /// query fails, otherwise one item per row, `None` where the row cannot be read.
    fn fts_outcome(&self, query: &str, space: &str, limit: usize) -> (r: Result<Vec<Result<SearchResult, DbError>>, DbError>)
        ensures
            r matches Err(e) ==> e.is_sql_failure(),
            full_text_pass(self.tables().entities, self.tables().fts, query@, space@, limit, r),
    {
        let ghost fts = self.tables().fts;
        let ghost ents = self.tables().entities;
        let rows = match fts_hits(&self.conn, query, space, limit) {
            Ok(rows) => rows,
            Err(e) => return Err(db_error(e)),
        };
        let mut out: Vec<Result<SearchResult, DbError>> = Vec::new();
        let ghost mut results: Seq<SearchResult> = Seq::empty();
        let ghost mut hits: Seq<FtsEntry> = Seq::empty();
        let ghost mut src: Seq<int> = Seq::empty();
        let mut i: usize = 0;
        while i < rows.len()
            invariant
                i <= rows@.len(),
                rows@.len() <= limit,
                out@.len() == i,
                results == read_rows(ok_items(out@)),
                forall|j: int| 0 <= j < out@.len() ==> (#[trigger] out@[j] matches Err(e) ==> e.is_sql_failure()),
                results.len() <= i,
                fts == self.tables().fts,
                ents == self.tables().entities,
                hits.len() == results.len(),
                src.len() == hits.len(),
                forall|j: int| 0 <= j < rows@.len() ==> (#[trigger] rows@[j] matches Ok(h) ==> {
                    &&& ents.contains_key(h.id@)
                    &&& visible_in(ents[h.id@], space@)
                    &&& fts.count(h.entry()) > 0
                    &&& fts_match(query@, h.name@, h.content@)
                    &&& h.rank@ == bm25_rank_text(query@, fts, h.entry())
                }),
                forall|a: int, b: int| 0 <= a < b < rows@.len() ==> (#[trigger] rows@[a] matches Ok(x)
                    ==> (#[trigger] rows@[b] matches Ok(y) ==> bm25_at_most(query@, fts, x.entry(), y.entry()))),
                fts_single(fts) ==> forall|a: int, b: int| 0 <= a < b < rows@.len() ==> (#[trigger] rows@[a] matches Ok(x)
                    ==> (#[trigger] rows@[b] matches Ok(y) ==> x.id@ != y.id@)),
                rows@.len() < limit && (forall|j: int| 0 <= j < rows@.len() ==> #[trigger] rows@[j] is Ok)
                    ==> forall|k: Seq<char>, e: FtsEntry| #[trigger] ents.contains_key(k)
                    && visible_in(ents[k], space@) && e.0 == k && #[trigger] fts.count(e) > 0
                    && fts_match(query@, e.1, e.2) ==> exists|j: int| 0 <= j < rows@.len() && (#[trigger] rows@[j] matches Ok(h) && h.id@ == k),
                forall|k: int| 0 <= k < src.len() ==> 0 <= #[trigger] src[k] < i && (rows@[src[k]] matches Ok(h) && h.entry() == hits[k]),
                forall|k1: int, k2: int| 0 <= k1 < k2 < src.len() ==> #[trigger] src[k1] < #[trigger] src[k2],
                forall|k: int| 0 <= k < results.len() ==> reads_visible(ents, #[trigger] results[k].entity, space@),
                forall|k: int| 0 <= k < hits.len() ==> {
                    &&& #[trigger] hits[k].0 == results[k].entity.id@
                    &&& fts.count(hits[k]) > 0
                    &&& fts_match(query@, hits[k].1, hits[k].2)
                    &&& rank_of(results[k].basis) == Some(bm25_rank_text(query@, fts, hits[k]))
                },
                forall|k1: int, k2: int| 0 <= k1 < k2 < hits.len() ==> bm25_at_most(query@, fts, #[trigger] hits[k1], #[trigger] hits[k2]),
                fts_single(fts) ==> distinct(result_ids(results)),
                (forall|j: int| 0 <= j < i ==> #[trigger] ok_items(out@)[j] is Some) ==> results.len() == i
                    && forall|j: int| 0 <= j < i ==> (#[trigger] rows@[j] matches Ok(h) && results[j].entity.id@ == h.id@),
            decreases rows@.len() - i,
        {
            let ghost prev_out = ok_items(out@);
            let item: Result<SearchResult, DbError> = match &rows[i] {
                Ok(h) => {
                    assert(rows@[i as int] matches Ok(_));
                    match self.load_entity(h.id.as_str()) {
                        Ok(e) => {
                            let ghost entry = h.entry();
                            let ghost prev = results;
                            let res = SearchResult { entity: e, basis: LexicalBasis::FullText { rank: h.rank.clone() } };
                            proof {
                                let next = prev.push(res);
                                assert(h.rank@ == bm25_rank_text(query@, fts, entry));
                                assert(next[prev.len() as int] == res);
                                assert forall|k: int| 0 <= k < prev.len() implies #[trigger] next[k] == prev[k] by {}
                                assert forall|k: int| 0 <= k < hits.len() implies bm25_at_most(query@, fts, hits[k], entry) by {
                                    assert(rows@[src[k]] matches Ok(_));
                                    assert(src[k] < i);
                                }
                                if fts_single(fts) {
                                    assert forall|a: int, b: int| 0 <= a < b < next.len()
                                        implies result_ids(next)[a] != result_ids(next)[b] by {
                                        if b == prev.len() {
                                            assert(rows@[src[a]] matches Ok(_));
                                            assert(src[a] < i);
                                            assert(result_ids(next)[a] == hits[a].0);
                                        } else {
                                            assert(result_ids(next)[a] == result_ids(prev)[a]);
                                            assert(result_ids(next)[b] == result_ids(prev)[b]);
                                        }
                                    }
                                }
                                let new_hits = hits.push(entry);
                                assert(res.entity.id@ == h.id@);
                                assert forall|k: int| 0 <= k < new_hits.len() implies {
                                    &&& #[trigger] new_hits[k].0 == next[k].entity.id@
                                    &&& fts.count(new_hits[k]) > 0
                                    &&& fts_match(query@, new_hits[k].1, new_hits[k].2)
                                    &&& rank_of(next[k].basis) == Some(bm25_rank_text(query@, fts, new_hits[k]))
                                } by {
                                    if k < hits.len() {
                                        assert(new_hits[k] == hits[k]);
                                        assert(next[k] == prev[k]);
                                        assert(hits[k].0 == prev[k].entity.id@);
                                    } else {
                                        assert(new_hits[k] == entry);
                                        assert(next[k] == res);
                                    }
                                }
                                results = next;
                                hits = new_hits;
                                src = src.push(i as int);
                            }
                            Ok(res)
                        },
                        Err(err) => Err(err),
                    }
                },
                Err(e) => Err(DbError::from_sql(e)),
            };
            let ghost item_opt: Option<SearchResult> = read_item(item);
            let ghost prev_raw = out@;
            out.push(item);
            proof {
                assert forall|j: int| 0 <= j < out@.len() implies (#[trigger] out@[j] matches Err(e) ==> e.is_sql_failure()) by {
                    if j < prev_raw.len() {
                        assert(out@[j] == prev_raw[j]);
                    }
                }
                assert(ok_items(out@) =~= prev_out.push(item_opt));
                assert(ok_items(out@).drop_last() =~= prev_out);
                if forall|j: int| 0 <= j < i + 1 ==> #[trigger] ok_items(out@)[j] is Some {
                    assert forall|j: int| 0 <= j < i implies #[trigger] prev_out[j] is Some by {
                        assert(ok_items(out@)[j] == prev_out[j]);
                    }
                    assert(ok_items(out@)[i as int] is Some);
                    assert forall|j: int| 0 <= j < i + 1 implies (#[trigger] rows@[j] matches Ok(h) && results[j].entity.id@ == h.id@) by {
                        if j < i {
                            assert(prev_out[j] is Some);
                        }
                    }
                }
            }
            i = i + 1;
        }
        proof {
            assert(results.take(hits.len() as int) =~= results);
            assert(full_text_ranked(fts, results, hits, query@));
            if rows@.len() < limit && (forall|j: int| 0 <= j < ok_items(out@).len() ==> #[trigger] ok_items(out@)[j] is Some) {
                assert forall|j: int| 0 <= j < rows@.len() implies #[trigger] rows@[j] is Ok by {
                    assert(ok_items(out@)[j] is Some);
                }
                assert forall|k: Seq<char>, e: FtsEntry| #[trigger] ents.contains_key(k) && visible_in(ents[k], space@) && e.0 == k
                    && #[trigger] fts.count(e) > 0 && fts_match(query@, e.1, e.2) implies result_ids(results).contains(k) by {
                    let j = choose|j: int| 0 <= j < rows@.len() && (#[trigger] rows@[j] matches Ok(h) && h.id@ == k);
                    assert(ok_items(out@)[j] is Some);
                    assert(result_ids(results)[j] == k);
                }
            }
        }
        Ok(out)
    }

    /// Searches the visible entities of the space (default `atlas-memory`), as
    /// `search_answer` describes. An empty query lists the newest entities. Otherwise
    /// the query (trimmed, `"` removed) runs as an FTS5 expression when it uses FTS5
    /// operators, then, if that found nothing, as a quoted phrase; when fewer than
    /// `limit` results came back, entities whose name or content is `LIKE
    /// '%query%'` are added, each once, and the list is cut to `limit`.
    pub fn search_entities(&self, query: &str, space: Option<&str>, limit: usize) -> (r: Result<Vec<SearchResult>, DbError>)
        ensures
            r matches Err(e) ==> e.is_sql_failure(),
            trimmed(query@).len() > 0 && limit == 0 ==> r is Ok,
            match r {
                Ok(rs) => search_answer(
                    self.tables().entities,
                    self.tables().fts,
                    rs@,
                    query@,
                    space_or_default(space.deep_view()),
                    limit,
                ),
                Err(_) => true,
            },
    {
        let ghost ents = self.tables().entities;
        let target = target_space(space);
        let q = trim(query);
        if q.as_str().is_empty() {
            let ids = match recent_entity_ids(&self.conn, target.as_str(), limit) {
                Ok(ids) => ids,
                Err(e) => return Err(db_error(e)),
            };
            let mut results: Vec<SearchResult> = Vec::new();
            let mut i: usize = 0;
            while i < ids.len()
                invariant
                    i <= ids@.len(),
                    ids@.len() <= limit,
                    results@.len() == i,
                    ents == self.tables().entities,
                    forall|j: int| 0 <= j < ids@.len() ==> ents.contains_key(#[trigger] ids@[j]@) && visible_in(ents[ids@[j]@], target@),
                    forall|j: int| #![trigger results@[j]] 0 <= j < i ==> results@[j].entity.id@ == ids@[j]@
                        && reads_visible(ents, results@[j].entity, target@) && results@[j].basis is Recent,
                decreases ids@.len() - i,
            {
                let e = match self.load_entity(ids[i].as_str()) {
                    Ok(e) => e,
                    Err(err) => return Err(err),
                };
                results.push(SearchResult { entity: e, basis: LexicalBasis::Recent });
                i = i + 1;
            }
            proof {
                assert(result_ids(results@) =~= ids.deep_view());
                assert forall|j: int| 0 <= j < results@.len() - 1 implies text_le(#[trigger] results@[j + 1].entity.created_at@, results@[j].entity.created_at@) by {
                    assert(results@[j + 1].entity.id@ == ids@[j + 1]@);
                    assert(results@[j].entity.id@ == ids@[j]@);
                    assert(text_le(ents[ids@[j + 1]@].created_at, ents[ids@[j]@].created_at));
                }
            }
            return Ok(results);
        }
        let qv = chars_of(q.as_str());
        let clean_v = remove_char(&qv, '"');
        let clean = string_of(&clean_v);
        let ghost fts = self.tables().fts;
        let op = if has_fts_operators(&clean_v) {
            as_outcome(self.fts_outcome(clean.as_str(), target.as_str(), limit))
        } else {
            None
        };
        let phrase = if gave_results(&op) {
            None
        } else {
            let quoted = String::from_str("\"").concat(clean.as_str()).concat("\"");
            proof {
                reveal_strlit("\"");
                assert(quoted@ =~= phrase_of(clean@));
            }
            as_outcome(self.fts_outcome(quoted.as_str(), target.as_str(), limit))
        };
        let ghost op_g = op;
        let ghost phrase_g = phrase;
        let results = full_text_section(op, phrase);
        let mut like: Vec<SearchResult> = Vec::new();
        if results.len() < limit {
            let pattern = String::from_str("%").concat(q.as_str()).concat("%");
            proof {
                reveal_strlit("%");
                assert(pattern@ =~= like_pattern(q@));
            }
            let ids = match like_entity_ids(&self.conn, pattern.as_str(), target.as_str(), limit) {
                Ok(ids) => ids,
                Err(e) => return Err(db_error(e)),
            };
            let mut i: usize = 0;
            while i < ids.len()
                invariant
                    i <= ids@.len(),
                    0 < limit,
                    like@.len() == i,
                    ents == self.tables().entities,
                    forall|j: int| 0 <= j < ids@.len() ==> ents.contains_key(#[trigger] ids@[j]@) && visible_in(ents[ids@[j]@], target@)
                        && like_either(ents[ids@[j]@], like_pattern(q@)),
                    forall|j: int| 0 <= j < i ==> #[trigger] like@[j].entity.id@ == ids@[j]@
                        && reads_visible(ents, like@[j].entity, target@) && like@[j].basis is Substring,
                decreases ids@.len() - i,
            {
                let e = match self.load_entity(ids[i].as_str()) {
                    Ok(e) => e,
                    Err(err) => return Err(err),
                };
                like.push(SearchResult { entity: e, basis: LexicalBasis::Substring });
                i = i + 1;
            }
            proof {
                assert(result_ids(like@) =~= ids.deep_view()) by {
                    assert forall|j: int| 0 <= j < like@.len() implies #[trigger] result_ids(like@)[j] == ids.deep_view()[j] by {
                        assert(like@[j].entity.id@ == ids@[j]@);
                    }
                }
                assert forall|j: int| 0 <= j < like@.len() implies reads_visible(ents, #[trigger] like@[j].entity, target@)
                    && like@[j].basis is Substring && like_either(ents[like@[j].entity.id@], like_pattern(q@)) by {
                    assert(like@[j].entity.id@ == ids@[j]@);
                }
                assert(fallback_outcome(ents, like_pattern(q@), target@, limit, like@));
            }
        }
        let ghost ft = results@;
        let ghost more = like@;
        let results = merge_fallback(results, like, limit);
        proof {
            assert(clean@ == without_char(q@, '"'));
            lemma_search_answer(ents, fts, query@, target@, limit, op_g, phrase_g, ft, more, results@);
        }
        Ok(results)
    }

    /// The candidates of a recall: every visible entity of the space (default
    /// `atlas-memory`), each once, read as stored, with its embedding and where
    /// `query_text` occurs in it (ignoring case). The order is not stated.
    pub fn recall_candidates(&self, query_text: &str, space: Option<&str>) -> (r: Result<Vec<RecallCandidate>, DbError>)
        ensures
            r matches Err(e) ==> e.is_sql_failure(),
            match r {
                Ok(cs) => {
                    let sp = space_or_default(space.deep_view());
                    let ents = self.tables().entities;
                    &&& distinct(cs@.map_values(|c: RecallCandidate| c.entity.id@))
                    &&& forall|i: int| 0 <= i < cs@.len() ==> {
                        &&& reads_visible(ents, #[trigger] cs@[i].entity, sp)
                        &&& cs@[i].embedding.deep_view() == ents[cs@[i].entity.id@].embedding
                        &&& cs@[i].lexical == lexical_of(query_text@, cs@[i].entity.canonical_name@, cs@[i].entity.content@)
                    }
                    &&& forall|k: Seq<char>| #[trigger] ents.contains_key(k) && visible_in(ents[k], sp)
                        ==> exists|i: int| 0 <= i < cs@.len() && #[trigger] cs@[i].entity.id@ == k
                },
                Err(_) => true,
            },
    {
        let ghost ents = self.tables().entities;
        let target = target_space(space);
        let rows = match visible_entities(&self.conn, target.as_str()) {
            Ok(rows) => rows,
            Err(e) => return Err(db_error(e)),
        };
        let q_lower = chars_of(lowercase(query_text).as_str());
        let mut cs: Vec<RecallCandidate> = Vec::new();
        let mut i: usize = 0;
        while i < rows.len()
            invariant
                i <= rows@.len(),
                cs@.len() == i,
                ents == self.tables().entities,
                q_lower@ == lowercase_of(query_text@),
                forall|j: int| 0 <= j < rows@.len() ==> ents.contains_key(#[trigger] rows@[j].0@) && visible_in(ents[rows@[j].0@], target@)
                    && ents[rows@[j].0@].embedding == rows@[j].1.deep_view(),
                forall|j: int| 0 <= j < i ==> {
                    &&& #[trigger] cs@[j].entity.id@ == rows@[j].0@
                    &&& reads_visible(ents, cs@[j].entity, target@)
                    &&& cs@[j].embedding.deep_view() == ents[cs@[j].entity.id@].embedding
                    &&& cs@[j].lexical == lexical_of(query_text@, cs@[j].entity.canonical_name@, cs@[j].entity.content@)
                },
            decreases rows@.len() - i,
        {
            let e = match self.load_entity(rows[i].0.as_str()) {
                Ok(e) => e,
                Err(err) => return Err(err),
            };
            let lexical = lexical_match_lowered(&q_lower, e.canonical_name.as_str(), e.content.as_str());
            let embedding = rows[i].1.clone();
            cs.push(RecallCandidate { entity: e, embedding, lexical });
            i = i + 1;
        }
        proof {
            assert(cs@.map_values(|c: RecallCandidate| c.entity.id@) =~= rows@.map_values(|p: (String, Option<Vec<u8>>)| p.0@));
            assert forall|k: Seq<char>| #[trigger] ents.contains_key(k) && visible_in(ents[k], target@)
                implies exists|i: int| 0 <= i < cs@.len() && #[trigger] cs@[i].entity.id@ == k by {
                let j = choose|j: int| 0 <= j < rows@.len() && #[trigger] rows@[j].0@ == k;
                assert(cs@[j].entity.id@ == k);
            }
        }
        Ok(cs)
    }

    /// The claims that touch entity `subject_id` (as subject or object) in the space
    /// (default `atlas-memory`) and are not retracted: each once, read as stored.
    /// The order is not stated.
    pub fn traverse_claims(&self, subject_id: &str, space: Option<&str>) -> (r: Result<Vec<CortexClaim>, DbError>)
        ensures
            r matches Err(e) ==> e.is_sql_failure(),
            match r {
                Ok(cl) => {
                    let sp = space_or_default(space.deep_view());
                    let claims = self.tables().claims;
                    &&& distinct(cl@.map_values(|c: CortexClaim| c.id@))
                    &&& forall|i: int| 0 <= i < cl@.len() ==> claims.contains_key(#[trigger] cl@[i].id@)
                        && claim_touches(claims[cl@[i].id@], subject_id@, sp) && claim_reads(cl@[i], cl@[i].id@, claims[cl@[i].id@])
                    &&& forall|k: Seq<char>| #[trigger] claims.contains_key(k) && claim_touches(claims[k], subject_id@, sp)
                        ==> cl@.map_values(|c: CortexClaim| c.id@).contains(k)
                },
                Err(_) => true,
            },
    {
        let ghost claims = self.tables().claims;
        let target = target_space(space);
        let ids = match claim_ids_touching(&self.conn, subject_id, target.as_str()) {
            Ok(ids) => ids,
            Err(e) => return Err(db_error(e)),
        };
        let mut out: Vec<CortexClaim> = Vec::new();
        let mut i: usize = 0;
        while i < ids.len()
            invariant
                i <= ids@.len(),
                out@.len() == i,
                claims == self.tables().claims,
                forall|j: int| 0 <= j < ids@.len() ==> claims.contains_key(#[trigger] ids@[j]@)
                    && claim_touches(claims[ids@[j]@], subject_id@, target@),
                forall|j: int| 0 <= j < i ==> #[trigger] out@[j].id@ == ids@[j]@ && claim_reads(out@[j], ids@[j]@, claims[ids@[j]@]),
            decreases ids@.len() - i,
        {
            let row = match claim_by_id(&self.conn, ids[i].as_str()) {
                Ok(Some(row)) => row,
                Ok(None) => unreached(),
                Err(e) => return Err(db_error(e)),
            };
            out.push(claim_of_row(row));
            i = i + 1;
        }
        proof {
            assert(out@.map_values(|c: CortexClaim| c.id@) =~= ids.deep_view());
        }
        Ok(out)
    }
}

} // verus!
