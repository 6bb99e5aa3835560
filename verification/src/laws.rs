//! Properties of the store and of the token check that span several operations,
//! stated over the effects that the operations' contracts describe.
use vstd::prelude::*;
use crate::auth::{auth_decision, bearer_scheme};
use crate::db::{
    aliases_of, claim_upserted, entity_imported, entity_retracted, entity_reads, entity_upserted, matches_key, name_taken, next_revision, reads_visible,
    search_answer, search_built, full_text_outcome, full_text_pass, ok_items, pass_results, read_rows, with_new, cut, lemma_with_new, phrase_of,
    space_ensured, target_retracted, lemma_refresh_of_new_entity_keeps_single, result_ids, Tables,
};
use vstd::multiset::Multiset;
use crate::store::EntityRecord;
use crate::store::DbError;
use crate::models::{ClaimWriteInput, CortexEntity, EntityWriteInput, ReceiptDetails, SearchResult};
use crate::store::{fts_match, distinct, claim_touches, fts_single, stored_real_text, visible_in, FtsEntry};
use crate::text::{has_prefix, is_white_space, trimmed, without_char};

verus! {

/// Read after write: once `upsert_entity` has written an entity (that did not sit in
/// another space), it is visible in the input's space under the input's canonical
/// name, with the input's type, content, metadata and validity dates, and with the
/// input's aliases. So `get_entity` by that name in
/// that space finds an entity.
pub proof fn law_upsert_then_lookup(
    before: Tables,
    after: Tables,
    input: EntityWriteInput,
    embedding: Option<Seq<u8>>,
    rc: ReceiptDetails,
)
    requires
        entity_upserted(before, after, input, embedding, rc),
        before.entities.contains_key(rc.target_id@) ==> before.entities[rc.target_id@].space_slug == input.space@,
    ensures
        matches_key(after.entities, rc.target_id@, input.canonical_name@, input.space@),
        after.entities[rc.target_id@].entity_type == input.entity_type@,
        after.entities[rc.target_id@].content == input.content@,
        after.entities[rc.target_id@].metadata_json == input.metadata@,
        after.entities[rc.target_id@].valid_from == input.valid_from.deep_view(),
        after.entities[rc.target_id@].valid_to == input.valid_to.deep_view(),
        aliases_of(after.entities[rc.target_id@].aliases_json) == input.aliases.deep_view(),
        after.entities[rc.target_id@].confidence == stored_real_text(input.confidence@),
{
}

/// When no other visible entity of the space has the name (or the id) that was
/// written, a lookup by that name finds exactly the written entity.
pub proof fn law_upsert_then_unique_lookup(
    before: Tables,
    after: Tables,
    input: EntityWriteInput,
    embedding: Option<Seq<u8>>,
    rc: ReceiptDetails,
    found: CortexEntity,
)
    requires
        entity_upserted(before, after, input, embedding, rc),
        before.entities.contains_key(rc.target_id@) ==> before.entities[rc.target_id@].space_slug == input.space@,
        forall|k: Seq<char>| k != rc.target_id@ ==> !#[trigger] matches_key(before.entities, k, input.canonical_name@, input.space@),
        matches_key(after.entities, found.id@, input.canonical_name@, input.space@),
    ensures
        found.id@ == rc.target_id@,
        forall|k: Seq<char>| #[trigger] matches_key(after.entities, k, input.canonical_name@, input.space@) ==> k == rc.target_id@,
{
    assert forall|k: Seq<char>| #[trigger] matches_key(after.entities, k, input.canonical_name@, input.space@) implies k == rc.target_id@ by {
        if k != rc.target_id@ {
            assert(after.entities[k] == before.entities[k]);
            assert(matches_key(before.entities, k, input.canonical_name@, input.space@));
        }
    }
}

/// A lookup after an upsert reads back the input: when no other visible entity of the
/// space has the written name (or the written id) as its name or id, the entity that
/// `get_entity` returns for the name is the written one, visible in the input's
/// space, with the input's type, content, aliases, metadata, confidence (as the store
/// reads it back), and validity dates.
pub proof fn law_upsert_then_get_reads_input(
    before: Tables,
    after: Tables,
    input: EntityWriteInput,
    embedding: Option<Seq<u8>>,
    rc: ReceiptDetails,
    found: CortexEntity,
)
    requires
        entity_upserted(before, after, input, embedding, rc),
        before.entities.contains_key(rc.target_id@) ==> before.entities[rc.target_id@].space_slug == input.space@,
        forall|k: Seq<char>| k != rc.target_id@ ==> !#[trigger] matches_key(before.entities, k, input.canonical_name@, input.space@),
        matches_key(after.entities, found.id@, input.canonical_name@, input.space@),
        entity_reads(found, found.id@, after.entities[found.id@]),
    ensures
        found.id@ == rc.target_id@,
        found.space_slug@ == input.space@,
        !found.retracted,
        found.canonical_name@ == input.canonical_name@,
        found.entity_type@ == input.entity_type@,
        found.content@ == input.content@,
        found.aliases.deep_view() == input.aliases.deep_view(),
        found.metadata@ == input.metadata@,
        found.confidence@ == stored_real_text(input.confidence@),
        found.valid_from.deep_view() == input.valid_from.deep_view(),
        found.valid_to.deep_view() == input.valid_to.deep_view(),
{
    law_upsert_then_unique_lookup(before, after, input, embedding, rc, found);
    law_upsert_then_lookup(before, after, input, embedding, rc);
}

/// Import then lookup: an entity imported under an id that the store did not hold,
/// not retracted, is found by `get_entity` under its id in its own space (when no other
/// visible entity there has that id as its name), and it reads back as it was given,
/// field by field, its confidence as the store reads it back.
pub proof fn law_import_then_get(
    before: Tables,
    after: Tables,
    ent: CortexEntity,
    embedding: Option<Seq<u8>>,
    found: CortexEntity,
)
    requires
        entity_imported(before, after, ent, embedding),
        !before.entities.contains_key(ent.id@),
        !ent.retracted,
        forall|k: Seq<char>| k != ent.id@ ==> !#[trigger] matches_key(before.entities, k, ent.id@, ent.space_slug@),
        matches_key(after.entities, found.id@, ent.id@, ent.space_slug@),
        entity_reads(found, found.id@, after.entities[found.id@]),
    ensures
        matches_key(after.entities, ent.id@, ent.id@, ent.space_slug@),
        found.id@ == ent.id@,
        found.space_id@ == ent.space_id@,
        found.space_slug@ == ent.space_slug@,
        found.entity_type@ == ent.entity_type@,
        found.canonical_name@ == ent.canonical_name@,
        found.content@ == ent.content@,
        found.aliases.deep_view() == ent.aliases.deep_view(),
        found.metadata@ == ent.metadata@,
        found.confidence@ == stored_real_text(ent.confidence@),
        found.revision == ent.revision,
        !found.retracted,
        found.valid_from.deep_view() == ent.valid_from.deep_view(),
        found.valid_to.deep_view() == ent.valid_to.deep_view(),
        found.created_at@ == ent.created_at@,
{
    let t = ent.id@;
    if found.id@ != t {
        assert(after.entities[found.id@] == before.entities[found.id@]);
        assert(matches_key(before.entities, found.id@, ent.id@, ent.space_slug@));
    }
}

/// Retraction then lookup: after entity `id` is retracted, a lookup by `key` in `space`
/// finds nothing, provided no other visible entity of the space had `key` as its id or
/// name.
pub proof fn law_retract_then_get_finds_nothing(before: Tables, after: Tables, id: Seq<char>, key: Seq<char>, space: Seq<char>)
    requires
        target_retracted(before, after, "entity"@, id),
        forall|k: Seq<char>| k != id ==> !#[trigger] matches_key(before.entities, k, key, space),
    ensures
        forall|k: Seq<char>| !#[trigger] matches_key(after.entities, k, key, space),
{
    assert(after.entities == entity_retracted(before.entities, id));
    assert forall|k: Seq<char>| !#[trigger] matches_key(after.entities, k, key, space) by {
        if k != id {
            assert(after.entities.contains_key(k) == before.entities.contains_key(k));
            if after.entities.contains_key(k) {
                assert(after.entities[k] == before.entities[k]);
                assert(!matches_key(before.entities, k, key, space));
            }
        } else if after.entities.contains_key(k) {
            assert(after.entities[k].retracted);
        }
    }
}

/// Deduplication by name: a second upsert of the same canonical name in the same space
/// writes the same entity again (whatever id the second input gives) and raises its
/// revision by one, provided no other entity of the space had that name.
pub proof fn law_same_name_same_entity(
    s0: Tables,
    s1: Tables,
    s2: Tables,
    first: EntityWriteInput,
    second: EntityWriteInput,
    emb1: Option<Seq<u8>>,
    emb2: Option<Seq<u8>>,
    rc1: ReceiptDetails,
    rc2: ReceiptDetails,
)
    requires
        entity_upserted(s0, s1, first, emb1, rc1),
        entity_upserted(s1, s2, second, emb2, rc2),
        second.space@ == first.space@,
        second.canonical_name@ == first.canonical_name@,
        s0.entities.contains_key(rc1.target_id@) ==> s0.entities[rc1.target_id@].space_slug == first.space@,
        forall|k: Seq<char>| #[trigger] s0.entities.contains_key(k) && k != rc1.target_id@
            ==> !(s0.entities[k].space_slug == first.space@ && s0.entities[k].canonical_name == first.canonical_name@),
    ensures
        rc2.target_id@ == rc1.target_id@,
        s2.entities[rc2.target_id@].revision == next_revision(s1.entities[rc1.target_id@].revision),
        !s2.entities[rc2.target_id@].retracted,
{
    let t = rc1.target_id@;
    assert(s1.entities.contains_key(t) && s1.entities[t].space_slug == first.space@
        && s1.entities[t].canonical_name == first.canonical_name@);
    assert(name_taken(s1.entities, second.space@, second.canonical_name@));
    let t2 = rc2.target_id@;
    if t2 != t {
        assert(s1.entities[t2] == s0.entities[t2]);
    }
}

/// Retraction hides an entity everywhere: it is visible in no space (so no lookup,
/// search or recall, which return only visible entities, can return it) and it has no
/// full-text index entry left.
pub proof fn law_retracted_entity_is_hidden(
    before: Tables,
    after: Tables,
    id: Seq<char>,
    e: CortexEntity,
    key: Seq<char>,
    space: Seq<char>,
)
    requires
        target_retracted(before, after, "entity"@, id),
    ensures
        !(after.entities.contains_key(id) && visible_in(after.entities[id], space)),
        !matches_key(after.entities, id, key, space),
        reads_visible(after.entities, e, space) ==> e.id@ != id,
        forall|f: FtsEntry| f.0 == id ==> #[trigger] after.fts.count(f) == 0,
{
}

/// A search made after an entity's retraction never returns that entity, whatever the
/// query, space and limit.
pub proof fn law_retracted_entity_not_searchable(
    before: Tables,
    after: Tables,
    id: Seq<char>,
    results: Seq<SearchResult>,
    query: Seq<char>,
    space: Seq<char>,
    limit: usize,
)
    requires
        target_retracted(before, after, "entity"@, id),
        search_answer(after.entities, after.fts, results, query, space, limit),
    ensures
        forall|i: int| 0 <= i < results.len() ==> #[trigger] results[i].entity.id@ != id,
{
    assert forall|i: int| 0 <= i < results.len() implies #[trigger] results[i].entity.id@ != id by {
        assert(reads_visible(after.entities, results[i].entity, space));
    }
}

/// A new entity's write leaves every entity with at most one index entry when that
/// held before (whichever steps of the index refresh took effect), so a later search
/// lists no entity twice.
pub proof fn law_new_entity_keeps_search_distinct(
    before: Tables,
    after: Tables,
    input: EntityWriteInput,
    embedding: Option<Seq<u8>>,
    rc: ReceiptDetails,
    results: Seq<SearchResult>,
    query: Seq<char>,
    space: Seq<char>,
    limit: usize,
)
    requires
        entity_upserted(before, after, input, embedding, rc),
        fts_single(before.fts),
        forall|e: FtsEntry| e.0 == rc.target_id@ ==> #[trigger] before.fts.count(e) == 0,
        search_answer(after.entities, after.fts, results, query, space, limit),
    ensures
        fts_single(after.fts),
        distinct(result_ids(results)),
{
    lemma_refresh_of_new_entity_keeps_single(
        before.fts,
        after.fts,
        (rc.target_id@, input.canonical_name@, input.content@, input.space@),
    );
}

/// A full-text pass that ran, read every row and came back with fewer than `limit`
/// rows leaves none of its matches out of the search answer: every visible entity of
/// the space with an index entry that its expression matches (the query without `"`
/// for the operator pass, the quoted phrase for the other) is among the results.
pub proof fn law_complete_full_text_pass_is_listed(
    ents: Map<Seq<char>, EntityRecord>,
    fts: Multiset<FtsEntry>,
    q: Seq<char>,
    space: Seq<char>,
    limit: usize,
    op: Option<Vec<Option<SearchResult>>>,
    phrase: Option<Vec<Option<SearchResult>>>,
    more: Seq<SearchResult>,
    rs: Seq<SearchResult>,
    rows: Vec<Option<SearchResult>>,
    k: Seq<char>,
    e: FtsEntry,
)
    requires
        search_built(ents, fts, q, space, limit, op, phrase, more, rs),
        (op == Some(rows) && pass_results(op).len() > 0) || (pass_results(op).len() == 0 && phrase == Some(rows)),
        rows@.len() < limit,
        forall|i: int| 0 <= i < rows@.len() ==> #[trigger] rows@[i] is Some,
        ents.contains_key(k),
        visible_in(ents[k], space),
        e.0 == k,
        fts.count(e) > 0,
        fts_match(
            if pass_results(op).len() > 0 { without_char(q, '"') } else { phrase_of(without_char(q, '"')) },
            e.1,
            e.2,
        ),
    ensures
        result_ids(rs).contains(k),
{
    let clean = without_char(q, '"');
    let qq = if pass_results(op).len() > 0 { clean } else { phrase_of(clean) };
    let chosen = if pass_results(op).len() > 0 { op } else { phrase };
    assert(chosen == Some(rows));
    assert(full_text_outcome(ents, fts, qq, space, limit, chosen));
    let ft = read_rows(rows@);
    assert(result_ids(ft).contains(k));
    let j = choose|j: int| 0 <= j < result_ids(ft).len() && result_ids(ft)[j] == k;
    lemma_read_rows_len(rows@);
    let p = |r: SearchResult| true;
    lemma_with_new(ft, more, p);
    let w = with_new(ft, more);
    assert(w[j] == ft[j]);
    assert(ft.len() < limit);
    assert(rs[j] == w[j]);
    assert(result_ids(rs)[j] == k);
}

/// The results read from a pass are no more than its rows.
pub proof fn lemma_read_rows_len(rows: Seq<Option<SearchResult>>)
    ensures
        read_rows(rows).len() <= rows.len(),
    decreases rows.len(),
{
    if rows.len() > 0 {
        lemma_read_rows_len(rows.drop_last());
    }
}

/// A full-text pass whose query succeeded keeps its matches: when every row was read
/// and some visible entity of the space has an index entry that the expression
/// matches, the pass lists at least one entity, and it lists that entity unless it
/// filled its `limit` rows. (Its query's own failure is the only way to get nothing
/// back, and that is a `DbError`, which only a failed SQLite call makes.)
pub proof fn law_full_text_pass_keeps_its_matches(
    ents: Map<Seq<char>, EntityRecord>,
    fts: Multiset<FtsEntry>,
    q: Seq<char>,
    space: Seq<char>,
    limit: usize,
    rows: Vec<Result<SearchResult, DbError>>,
    k: Seq<char>,
    e: FtsEntry,
)
    requires
        full_text_pass(ents, fts, q, space, limit, Ok(rows)),
        0 < limit,
        forall|i: int| 0 <= i < rows@.len() ==> #[trigger] rows@[i] is Ok,
        ents.contains_key(k),
        visible_in(ents[k], space),
        e.0 == k,
        fts.count(e) > 0,
        fts_match(q, e.1, e.2),
    ensures
        read_rows(ok_items(rows@)).len() > 0,
        rows@.len() == limit || result_ids(read_rows(ok_items(rows@))).contains(k),
{
    let items = ok_items(rows@);
    assert forall|i: int| 0 <= i < items.len() implies #[trigger] items[i] is Some by {
        assert(rows@[i] is Ok);
    }
    lemma_read_rows_all_read(items);
    if rows@.len() < limit {
        assert(result_ids(read_rows(items)).contains(k));
    }
}

/// Reading rows that all were read keeps every one.
pub proof fn lemma_read_rows_all_read(rows: Seq<Option<SearchResult>>)
    requires
        forall|i: int| 0 <= i < rows.len() ==> #[trigger] rows[i] is Some,
    ensures
        read_rows(rows).len() == rows.len(),
    decreases rows.len(),
{
    if rows.len() > 0 {
        let r0 = rows.drop_last();
        assert forall|i: int| 0 <= i < r0.len() implies #[trigger] r0[i] is Some by {
            assert(r0[i] == rows[i]);
        }
        lemma_read_rows_all_read(r0);
        assert(rows.last() is Some);
    }
}

/// A new name in a space makes a new entity there: when no entity of the space has
/// the name and the input gives no id, the upsert writes an entity under an id that no
/// entity had, visible in the input's space with the input's name and content at
/// revision 1, and every entity that was there before stays exactly as it was (an
/// entity of the same name in another space among them).
pub proof fn law_new_name_creates_an_entity(
    before: Tables,
    after: Tables,
    input: EntityWriteInput,
    embedding: Option<Seq<u8>>,
    rc: ReceiptDetails,
)
    requires
        entity_upserted(before, after, input, embedding, rc),
        !name_taken(before.entities, input.space@, input.canonical_name@),
        input.id is None,
    ensures
        !before.entities.contains_key(rc.target_id@),
        after.entities.dom() == before.entities.dom().insert(rc.target_id@),
        forall|k: Seq<char>| #[trigger] before.entities.contains_key(k) ==> after.entities[k] == before.entities[k],
        visible_in(after.entities[rc.target_id@], input.space@),
        matches_key(after.entities, rc.target_id@, input.canonical_name@, input.space@),
        after.entities[rc.target_id@].content == input.content@,
        after.entities[rc.target_id@].revision == 1,
{
    assert(after.entities.dom() =~= before.entities.dom().insert(rc.target_id@));
}

/// A claim written without an id is a new claim: it gets an id that no claim had, the
/// claims grow by exactly that one, and every earlier claim stays as it was, so a
/// traversal from the subject lists the earlier claims that touched it and the new one.
pub proof fn law_claim_without_id_is_new(before: Tables, after: Tables, input: ClaimWriteInput, rc: ReceiptDetails)
    requires
        claim_upserted(before, after, input, rc),
        input.id is None,
    ensures
        !before.claims.contains_key(rc.target_id@),
        after.claims.dom() == before.claims.dom().insert(rc.target_id@),
        forall|k: Seq<char>| #[trigger] before.claims.contains_key(k) ==> after.claims[k] == before.claims[k],
        forall|k: Seq<char>| #[trigger] before.claims.contains_key(k) && claim_touches(before.claims[k], input.subject_entity_id@, input.space@)
            ==> claim_touches(after.claims[k], input.subject_entity_id@, input.space@),
        claim_touches(after.claims[rc.target_id@], input.subject_entity_id@, input.space@),
        after.claims[rc.target_id@].predicate == input.predicate@,
{
    assert(after.claims.dom() =~= before.claims.dom().insert(rc.target_id@));
}

/// Writing an entity again brings it back: whatever its state, the entity that an
/// upsert writes is not retracted.
pub proof fn law_upsert_revives(before: Tables, after: Tables, input: EntityWriteInput, embedding: Option<Seq<u8>>, rc: ReceiptDetails)
    requires
        entity_upserted(before, after, input, embedding, rc),
    ensures
        after.entities.contains_key(rc.target_id@),
        !after.entities[rc.target_id@].retracted,
{
}

/// A written claim is traversable from its subject (and from its object) in its
/// space, provided it did not already exist in another space or with another subject.
pub proof fn law_claim_upsert_then_traverse(before: Tables, after: Tables, input: ClaimWriteInput, rc: ReceiptDetails)
    requires
        claim_upserted(before, after, input, rc),
        before.claims.contains_key(rc.target_id@) ==> before.claims[rc.target_id@].space_slug == input.space@
            && before.claims[rc.target_id@].subject_entity_id == input.subject_entity_id@,
    ensures
        after.claims.contains_key(rc.target_id@),
        claim_touches(after.claims[rc.target_id@], input.subject_entity_id@, input.space@),
        input.object_entity_id matches Some(o) ==> claim_touches(after.claims[rc.target_id@], o@, input.space@),
{
}

/// A retracted claim is traversed from no entity in no space.
pub proof fn law_retracted_claim_is_hidden(before: Tables, after: Tables, id: Seq<char>, subject: Seq<char>, space: Seq<char>)
    requires
        target_retracted(before, after, "claim"@, id),
    ensures
        !(after.claims.contains_key(id) && claim_touches(after.claims[id], subject, space)),
{
    assert("claim"@ != "entity"@) by {
        reveal_strlit("claim");
        reveal_strlit("entity");
        assert("claim"@.len() != "entity"@.len());
    }
}

/// A claim write leaves the entities and the full-text index as they were, and an
/// entity write leaves the claims as they were.
pub proof fn law_writes_keep_other_tables(
    before: Tables,
    after: Tables,
    claim: ClaimWriteInput,
    claim_rc: ReceiptDetails,
    entity: EntityWriteInput,
    embedding: Option<Seq<u8>>,
    entity_rc: ReceiptDetails,
)
    ensures
        claim_upserted(before, after, claim, claim_rc) ==> after.entities == before.entities && after.fts == before.fts,
        entity_upserted(before, after, entity, embedding, entity_rc) ==> after.claims == before.claims,
{
}

/// Making sure of a space twice gives the same space id and changes nothing the
/// second time.
pub proof fn law_ensure_space_idempotent(
    s0: Map<Seq<char>, Seq<char>>,
    s1: Map<Seq<char>, Seq<char>>,
    s2: Map<Seq<char>, Seq<char>>,
    slug: Seq<char>,
)
    requires
        space_ensured(s0, s1, slug),
        space_ensured(s1, s2, slug),
    ensures
        s2 == s1,
        s2[slug] == s1[slug],
{
    assert(s1.insert(slug, s2[slug]) =~= s1);
}

/// A well-formed bearer header that carries the configured token is admitted, and an
/// unconfigured host admits nobody.
pub proof fn law_bearer_token_accepted(token: Seq<char>, header: Option<Seq<char>>)
    requires
        token.len() > 0,
        !is_white_space(token[0]),
        !is_white_space(token.last()),
    ensures
        auth_decision(Some(bearer_scheme() + token), token) == Ok::<(), crate::auth::AuthError>(()),
        auth_decision(header, Seq::empty()) == Err::<(), crate::auth::AuthError>(crate::auth::AuthError::ServiceUnavailable),
{
    let h = bearer_scheme() + token;
    assert(h.subrange(0, 7) =~= bearer_scheme());
    assert(has_prefix(h, bearer_scheme()));
    assert(h.skip(7) =~= token);
    reveal_with_fuel(crate::text::trim_left, 2);
    reveal_with_fuel(crate::text::trim_right, 2);
    assert(trimmed(token) == token);
}

} // verus!
