//! The SQLite tables that hold the engine's data, and the statements run on them.
//!
//! Each table is seen through a name for its contents: `entities` and `claims` by
//! row id, `spaces` by slug, and the full-text index as a multiset of entries.
//! A table that does not exist yet counts as empty. Every statement below is one
//! call into `rusqlite`; its contract says what the statement does to those
//! contents and what it reads from them. A single statement either applies in
//! full or not at all, so a failed write leaves its table unchanged.
use vstd::prelude::*;
use vstd::multiset::Multiset;
use rusqlite::{Connection, OptionalExtension};

verus! {

#[verifier::external_type_specification]
#[verifier::external_body]
pub struct ExConnection(Connection);

#[verifier::external_type_specification]
#[verifier::external_body]
pub struct ExSqlError(rusqlite::Error);

/// A stored entity. `confidence` is the decimal text that the real number stored in
/// the `confidence` column reads back as.
pub struct EntityRecord {
    pub space_id: Seq<char>,
    pub space_slug: Seq<char>,
    pub entity_type: Seq<char>,
    pub canonical_name: Seq<char>,
    pub content: Seq<char>,
    pub aliases_json: Seq<char>,
    pub metadata_json: Seq<char>,
    pub confidence: Seq<char>,
    pub revision: i64,
    pub retracted: bool,
    pub valid_from: Option<Seq<char>>,
    pub valid_to: Option<Seq<char>>,
    pub created_at: Seq<char>,
    pub embedding: Option<Seq<u8>>,
}

/// A stored claim. `confidence` is the decimal text that the real number stored in
/// the `confidence` column reads back as.
pub struct ClaimRecord {
    pub space_id: Seq<char>,
    pub space_slug: Seq<char>,
    pub subject_entity_id: Seq<char>,
    pub predicate: Seq<char>,
    pub object_entity_id: Option<Seq<char>>,
    pub literal_value_json: Option<Seq<char>>,
    pub confidence: Seq<char>,
    pub metadata_json: Seq<char>,
    pub retracted: bool,
    pub created_at: Seq<char>,
}

/// One row of the full-text index: entity id, name, content, space slug.
pub type FtsEntry = (Seq<char>, Seq<char>, Seq<char>, Seq<char>);

/// Every entity has at most one index entry.
pub open spec fn fts_single(fts: Multiset<FtsEntry>) -> bool {
    forall|a: FtsEntry, b: FtsEntry| #[trigger] fts.count(a) > 0 && #[trigger] fts.count(b) > 0 && a.0 == b.0
        ==> a == b && fts.count(a) == 1
}

/// One row of a full-text query: the entity's id, the columns of the index entry that
/// matched, and that entry's BM25 rank as decimal text.
pub struct FtsHit {
    pub id: String,
    pub name: String,
    pub content: String,
    pub index_space: String,
    pub rank: String,
}

impl FtsHit {
    /// The index entry of this row.
    pub open spec fn entry(&self) -> FtsEntry {
        (self.id@, self.name@, self.content@, self.index_space@)
    }
}

/// A failed database operation, with its message. Only two things make one: a failed
/// SQLite call (`from_sql`), and a freshly generated id that some row already has
/// (`generated_id_taken`), which a write refuses rather than overwrite that row.
#[derive(Debug, Clone)]
pub struct DbError {
    pub message: String,
    id_taken: bool,
}

impl DbError {
    /// The error of a failed SQLite call, with its message.
    pub(crate) fn from_sql(e: &rusqlite::Error) -> (r: DbError)
        ensures
            r.is_sql_failure(),
    {
        DbError { message: error_text(e), id_taken: false }
    }

    /// The refusal of a write whose freshly generated id some row already has.
    pub(crate) fn generated_id_taken() -> (r: DbError)
        ensures
            !r.is_sql_failure(),
    {
        DbError { message: String::from_str("generated id already in use"), id_taken: true }
    }

    /// This error is the error of a failed SQLite call.
    pub closed spec fn is_sql_failure(&self) -> bool {
        !self.id_taken
    }

    /// SQLite's message, as text.
    pub closed spec fn text(&self) -> Seq<char> {
        self.message@
    }

    /// SQLite's message.
    pub fn into_message(self) -> (r: String)
        ensures
            r@ == self.text(),
    {
        self.message
    }
}

/// The rows of the `entities` table, by id.
pub uninterp spec fn entity_table(conn: Connection) -> Map<Seq<char>, EntityRecord>;

/// The rows of the `claims` table, by id.
pub uninterp spec fn claim_table(conn: Connection) -> Map<Seq<char>, ClaimRecord>;

/// The rows of the `spaces` table: each slug's space id.
pub uninterp spec fn space_table(conn: Connection) -> Map<Seq<char>, Seq<char>>;

/// The rows of the `entities_fts` full-text index.
pub uninterp spec fn fts_table(conn: Connection) -> Multiset<FtsEntry>;

/// One entity row as it is written or read (every column but the embedding).
/// `confidence` is the decimal text of a real number.
pub struct EntityRow {
    pub id: String,
    pub space_id: String,
    pub space_slug: String,
    pub entity_type: String,
    pub canonical_name: String,
    pub content: String,
    pub aliases_json: String,
    pub metadata_json: String,
    pub confidence: String,
    pub revision: i64,
    pub retracted: bool,
    pub valid_from: Option<String>,
    pub valid_to: Option<String>,
    pub created_at: String,
}

/// One claim row as it is written or read. `confidence` is the decimal text of a
/// real number.
pub struct ClaimRow {
    pub id: String,
    pub space_id: String,
    pub space_slug: String,
    pub subject_entity_id: String,
    pub predicate: String,
    pub object_entity_id: Option<String>,
    pub literal_value_json: Option<String>,
    pub confidence: String,
    pub metadata_json: String,
    pub retracted: bool,
    pub created_at: String,
}

/// The text that `printf('%!.17g', confidence)` reads back from the `REAL` column
/// `confidence` after the text `bound` was written into it (SQLite turns a numeric
/// text into a real number on the way in).
pub uninterp spec fn stored_real_text(bound: Seq<char>) -> Seq<char>;

impl EntityRow {
    /// The stored record that this row stands for, with the given embedding.
    pub open spec fn record(self, embedding: Option<Seq<u8>>) -> EntityRecord {
        EntityRecord {
            space_id: self.space_id@,
            space_slug: self.space_slug@,
            entity_type: self.entity_type@,
            canonical_name: self.canonical_name@,
            content: self.content@,
            aliases_json: self.aliases_json@,
            metadata_json: self.metadata_json@,
            confidence: self.confidence@,
            revision: self.revision,
            retracted: self.retracted,
            valid_from: self.valid_from.deep_view(),
            valid_to: self.valid_to.deep_view(),
            created_at: self.created_at@,
            embedding: embedding,
        }
    }

    /// The stored record that writing this row gives, with the given embedding: its
    /// confidence text is bound into the real-valued column.
    pub open spec fn written(self, embedding: Option<Seq<u8>>) -> EntityRecord {
        EntityRecord { confidence: stored_real_text(self.confidence@), ..self.record(embedding) }
    }

    /// This row reads back the stored record `rec` under id `id`.
    pub open spec fn reads(self, id: Seq<char>, rec: EntityRecord) -> bool {
        self.id@ == id && self.record(rec.embedding) == rec
    }
}

impl ClaimRow {
    /// The stored record that this row stands for.
    pub open spec fn record(self) -> ClaimRecord {
        ClaimRecord {
            space_id: self.space_id@,
            space_slug: self.space_slug@,
            subject_entity_id: self.subject_entity_id@,
            predicate: self.predicate@,
            object_entity_id: self.object_entity_id.deep_view(),
            literal_value_json: self.literal_value_json.deep_view(),
            confidence: self.confidence@,
            metadata_json: self.metadata_json@,
            retracted: self.retracted,
            created_at: self.created_at@,
        }
    }

    /// The stored record that writing this row gives: its confidence text is bound
    /// into the real-valued column.
    pub open spec fn written(self) -> ClaimRecord {
        ClaimRecord { confidence: stored_real_text(self.confidence@), ..self.record() }
    }

    /// This row reads back the stored record `rec` under id `id`.
    pub open spec fn reads(self, id: Seq<char>, rec: ClaimRecord) -> bool {
        self.id@ == id && self.record() == rec
    }
}

/// The entity is in space `space` and not retracted.
pub open spec fn visible_in(rec: EntityRecord, space: Seq<char>) -> bool {
    rec.space_slug == space && !rec.retracted
}

/// The entity stored after the upsert statement writes `new` over `old`: a new row
/// is written whole and not retracted; an existing row keeps its space and creation
/// time, takes everything else from `new`, is no longer retracted, and keeps its
/// embedding when none is given.
pub open spec fn upserted_entity(old: Option<EntityRecord>, new: EntityRecord) -> EntityRecord {
    match old {
        None => EntityRecord { retracted: false, ..new },
        Some(o) => EntityRecord {
            space_id: o.space_id,
            space_slug: o.space_slug,
            created_at: o.created_at,
            retracted: false,
            embedding: if new.embedding is Some { new.embedding } else { o.embedding },
            ..new
        },
    }
}

/// The entity stored after the import statement writes `new` over `old`: a new row
/// is written whole; an existing row keeps its space, type and validity dates, takes
/// the rest from `new` (retraction flag included), and keeps its embedding when none
/// is given.
pub open spec fn imported_entity(old: Option<EntityRecord>, new: EntityRecord) -> EntityRecord {
    match old {
        None => new,
        Some(o) => EntityRecord {
            space_id: o.space_id,
            space_slug: o.space_slug,
            entity_type: o.entity_type,
            valid_from: o.valid_from,
            valid_to: o.valid_to,
            embedding: if new.embedding is Some { new.embedding } else { o.embedding },
            ..new
        },
    }
}

/// The claim stored after the upsert statement writes `new` over `old`: a new row
/// is written whole and not retracted; an existing row keeps its space, subject and
/// creation time, takes the rest from `new` and is no longer retracted.
pub open spec fn upserted_claim(old: Option<ClaimRecord>, new: ClaimRecord) -> ClaimRecord {
    match old {
        None => ClaimRecord { retracted: false, ..new },
        Some(o) => ClaimRecord {
            space_id: o.space_id,
            space_slug: o.space_slug,
            subject_entity_id: o.subject_entity_id,
            created_at: o.created_at,
            retracted: false,
            ..new
        },
    }
}

/// `a` and `b` hold the same four tables.
pub open spec fn same_tables(a: Connection, b: Connection) -> bool {
    &&& entity_table(a) == entity_table(b)
    &&& claim_table(a) == claim_table(b)
    &&& space_table(a) == space_table(b)
    &&& fts_table(a) == fts_table(b)
}

/// `a` and `b` differ at most in the `entities` table.
pub open spec fn only_entities_differ(a: Connection, b: Connection) -> bool {
    &&& claim_table(a) == claim_table(b)
    &&& space_table(a) == space_table(b)
    &&& fts_table(a) == fts_table(b)
}

/// `a` and `b` differ at most in the `claims` table.
pub open spec fn only_claims_differ(a: Connection, b: Connection) -> bool {
    &&& entity_table(a) == entity_table(b)
    &&& space_table(a) == space_table(b)
    &&& fts_table(a) == fts_table(b)
}

/// `a` and `b` differ at most in the `spaces` table.
pub open spec fn only_spaces_differ(a: Connection, b: Connection) -> bool {
    &&& entity_table(a) == entity_table(b)
    &&& claim_table(a) == claim_table(b)
    &&& fts_table(a) == fts_table(b)
}

/// `a` and `b` differ at most in the full-text index.
pub open spec fn only_fts_differs(a: Connection, b: Connection) -> bool {
    &&& entity_table(a) == entity_table(b)
    &&& claim_table(a) == claim_table(b)
    &&& space_table(a) == space_table(b)
}

/// `ids` holds no id twice.
pub open spec fn distinct(ids: Seq<Seq<char>>) -> bool {
    forall|i: int, j: int| 0 <= i < j < ids.len() ==> ids[i] != ids[j]
}

/// Lexicographic order by code point, which is SQLite's binary order on UTF-8 text.
pub open spec fn text_le(a: Seq<char>, b: Seq<char>) -> bool
    decreases a.len(),
{
    if a.len() == 0 {
        true
    } else if b.len() == 0 {
        false
    } else if a[0] != b[0] {
        (a[0] as u32) < (b[0] as u32)
    } else {
        text_le(a.drop_first(), b.drop_first())
    }
}

/// Some space of `spaces` already has id `id`.
pub open spec fn space_id_taken(spaces: Map<Seq<char>, Seq<char>>, id: Seq<char>) -> bool {
    exists|k: Seq<char>| #[trigger] spaces.contains_key(k) && spaces[k] == id
}

/// `Connection::open`: opens (or creates) the database file at `path`. What the
/// file already holds is not stated.
#[verifier::external_body]
fn open_file(path: &str) -> (r: Result<Connection, rusqlite::Error>) {
    Connection::open(path)
}

/// `Connection::open_in_memory`: a fresh private database, which has no tables.
#[verifier::external_body]
fn open_memory() -> (r: Result<Connection, rusqlite::Error>)
    ensures
        match r {
            Ok(c) => entity_table(c).is_empty() && claim_table(c).is_empty() && space_table(c).is_empty()
                && fts_table(c) =~= Multiset::empty(),
            Err(_) => true,
        },
{
    Connection::open_in_memory()
}

/// An open SQLite connection together with the database file it was opened on (`None`
/// for a private in-memory database). Only `open_file_handle` and `open_memory_handle`
/// make one, and every statement runs through it, so a store is always the database it
/// was opened on.
pub struct Handle {
    conn: Connection,
    file: Option<String>,
}

impl Handle {
    /// The connection.
    pub closed spec fn connection(&self) -> Connection {
        self.conn
    }

    /// The database file the connection was opened on, if any.
    pub closed spec fn file(&self) -> Option<Seq<char>> {
        match self.file {
            Some(p) => Some(p@),
            None => None,
        }
    }
}

/// A connection to the database file at `path`, created if missing.
pub(crate) fn open_file_handle(path: &str) -> (r: Result<Handle, rusqlite::Error>)
    ensures
        r matches Ok(h) ==> h.file() == Some(path@),
{
    match open_file(path) {
        Ok(conn) => Ok(Handle { conn, file: Some(String::from_str(path)) }),
        Err(e) => Err(e),
    }
}

/// A connection to a fresh private in-memory database: no file, and no rows.
pub(crate) fn open_memory_handle() -> (r: Result<Handle, rusqlite::Error>)
    ensures
        r matches Ok(h) ==> {
            &&& h.file() is None
            &&& entity_table(h.connection()).is_empty()
            &&& claim_table(h.connection()).is_empty()
            &&& space_table(h.connection()).is_empty()
            &&& fts_table(h.connection()) =~= Multiset::empty()
        },
{
    match open_memory() {
        Ok(conn) => Ok(Handle { conn, file: None }),
        Err(e) => Err(e),
    }
}

/// `Connection::query_row` on `PRAGMA journal_mode = WAL`: switches the file to
/// write-ahead logging and gives the journal mode now in force. Rows are not touched.
#[verifier::external_body]
pub(crate) fn set_wal_journal(conn: &Handle) -> (r: Result<String, rusqlite::Error>) {
    conn.conn.query_row("PRAGMA journal_mode = WAL", [], |r| r.get(0))
}

/// `Connection::execute_batch` on the `synchronous` and `foreign_keys` pragmas.
/// Rows are not touched.
#[verifier::external_body]
pub(crate) fn set_pragmas(conn: &Handle) -> (r: Result<(), rusqlite::Error>) {
    conn.conn.execute_batch("PRAGMA synchronous = NORMAL; PRAGMA foreign_keys = ON;")
}

/// `Connection::execute_batch` on the schema: creates each table and index that is
/// missing (`CREATE ... IF NOT EXISTS`). Existing rows are not touched and a new
/// table starts empty, so the contents stay as they were.
#[verifier::external_body]
pub(crate) fn create_schema(conn: &Handle) -> (r: Result<(), rusqlite::Error>) {
    conn.conn.execute_batch(
        "BEGIN;
        CREATE TABLE IF NOT EXISTS spaces (id TEXT PRIMARY KEY, slug TEXT UNIQUE NOT NULL, created_at TEXT NOT NULL);
        CREATE TABLE IF NOT EXISTS entities (id TEXT PRIMARY KEY, space_id TEXT NOT NULL, space_slug TEXT NOT NULL, entity_type TEXT NOT NULL, canonical_name TEXT NOT NULL, content TEXT NOT NULL, aliases_json TEXT NOT NULL DEFAULT '[]', metadata_json TEXT NOT NULL DEFAULT '{}', confidence REAL NOT NULL DEFAULT 1, revision INTEGER NOT NULL DEFAULT 1, retracted INTEGER NOT NULL DEFAULT 0, valid_from TEXT, valid_to TEXT, created_at TEXT NOT NULL, embedding BLOB);
        CREATE INDEX IF NOT EXISTS idx_entities_canonical ON entities(space_slug, canonical_name);
        CREATE INDEX IF NOT EXISTS idx_entities_type ON entities(space_slug, entity_type);
        CREATE VIRTUAL TABLE IF NOT EXISTS entities_fts USING fts5(id UNINDEXED, canonical_name, content, space_slug UNINDEXED);
        CREATE TABLE IF NOT EXISTS claims (id TEXT PRIMARY KEY, space_id TEXT NOT NULL, space_slug TEXT NOT NULL, subject_entity_id TEXT NOT NULL, predicate TEXT NOT NULL, object_entity_id TEXT, literal_value_json TEXT, confidence REAL NOT NULL DEFAULT 1, metadata_json TEXT NOT NULL DEFAULT '{}', retracted INTEGER NOT NULL DEFAULT 0, created_at TEXT NOT NULL);
        CREATE INDEX IF NOT EXISTS idx_claims_subject ON claims(subject_entity_id);
        CREATE INDEX IF NOT EXISTS idx_claims_object ON claims(object_entity_id);
        COMMIT;",
    )
}

/// `Connection::execute` on `INSERT OR IGNORE INTO spaces`: adds space `slug` with
/// id `id` unless a row with that slug (or that id) is already there.
#[verifier::external_body]
pub(crate) fn insert_space_or_ignore(conn: &mut Handle, id: &str, slug: &str, now: &str) -> (r: Result<usize, rusqlite::Error>)
    ensures
        final(conn).file() == old(conn).file(),
        only_spaces_differ(old(conn).connection(), final(conn).connection()),
        space_table(old(conn).connection()).contains_key(slug@) ==> space_table(final(conn).connection()) == space_table(old(conn).connection()),
        space_table(final(conn).connection()) == space_table(old(conn).connection()) || space_table(final(conn).connection()) == space_table(old(conn).connection()).insert(slug@, id@),
        space_id_taken(space_table(old(conn).connection()), id@) ==> space_table(final(conn).connection()) == space_table(old(conn).connection()),
{
    conn.conn.execute("INSERT OR IGNORE INTO spaces (id, slug, created_at) VALUES (?1, ?2, ?3)", (id, slug, now))
}

/// `Connection::prepare` and `query` on `SELECT id FROM spaces WHERE slug = ?1`:
/// the id of space `slug`, if it exists.
#[verifier::external_body]
pub(crate) fn space_id_of(conn: &Handle, slug: &str) -> (r: Result<Option<String>, rusqlite::Error>)
    ensures
        match r {
            Ok(Some(id)) => space_table(conn.connection()).contains_key(slug@) && space_table(conn.connection())[slug@] == id@,
            Ok(None) => !space_table(conn.connection()).contains_key(slug@),
            Err(_) => true,
        },
{
    conn.conn.query_row("SELECT id FROM spaces WHERE slug = ?1", [slug], |r| r.get(0)).optional()
}

/// `Connection::execute` on `INSERT INTO spaces`: adds space `slug` with id `id`;
/// fails, changing nothing, when the slug or the id is taken.
#[verifier::external_body]
pub(crate) fn insert_space(conn: &mut Handle, id: &str, slug: &str, now: &str) -> (r: Result<usize, rusqlite::Error>)
    ensures
        final(conn).file() == old(conn).file(),
        only_spaces_differ(old(conn).connection(), final(conn).connection()),
        match r {
            Ok(_) => !space_table(old(conn).connection()).contains_key(slug@) && !space_id_taken(space_table(old(conn).connection()), id@)
                && space_table(final(conn).connection()) == space_table(old(conn).connection()).insert(slug@, id@),
            Err(_) => space_table(final(conn).connection()) == space_table(old(conn).connection()),
        },
{
    conn.conn.execute("INSERT INTO spaces (id, slug, created_at) VALUES (?1, ?2, ?3)", (id, slug, now))
}

/// `Connection::query_row` on `SELECT id, revision FROM entities WHERE space_slug = ?1
/// AND canonical_name = ?2`: the id and revision of an entity with that name in that
/// space (retracted or not), if there is one.
#[verifier::external_body]
pub(crate) fn entity_named(conn: &Handle, space: &str, name: &str) -> (r: Result<Option<(String, i64)>, rusqlite::Error>)
    ensures
        match r {
            Ok(Some((id, rev))) => entity_table(conn.connection()).contains_key(id@)
                && entity_table(conn.connection())[id@].space_slug == space@
                && entity_table(conn.connection())[id@].canonical_name == name@
                && entity_table(conn.connection())[id@].revision == rev,
            Ok(None) => forall|k: Seq<char>| #[trigger] entity_table(conn.connection()).contains_key(k)
                ==> !(entity_table(conn.connection())[k].space_slug == space@ && entity_table(conn.connection())[k].canonical_name == name@),
            Err(_) => true,
        },
{
    let sql = "SELECT id, revision FROM entities WHERE space_slug = ?1 AND canonical_name = ?2";
    conn.conn.query_row(sql, [space, name], |r| Ok((r.get(0)?, r.get(1)?))).optional()
}

/// `Connection::execute` on `INSERT INTO entities ... ON CONFLICT(id) DO UPDATE`:
/// writes `row` (not retracted) under `row.id`, as `upserted_entity` describes.
#[verifier::external_body]
pub(crate) fn upsert_entity_row(conn: &mut Handle, row: &EntityRow, embedding: Option<&[u8]>) -> (r: Result<usize, rusqlite::Error>)
    ensures
        final(conn).file() == old(conn).file(),
        only_entities_differ(old(conn).connection(), final(conn).connection()),
        r is Ok ==> entity_table(final(conn).connection())[row.id@].confidence == stored_real_text(row.confidence@),
        match r {
            Ok(_) => entity_table(final(conn).connection()) == entity_table(old(conn).connection()).insert(
                row.id@,
                upserted_entity(entity_table(old(conn).connection()).get(row.id@), row.written(embedding.deep_view())),
            ),
            Err(_) => entity_table(final(conn).connection()) == entity_table(old(conn).connection()),
        },
{
    conn.conn.execute(
        "INSERT INTO entities (id, space_id, space_slug, entity_type, canonical_name, content, aliases_json, metadata_json, confidence, revision, retracted, valid_from, valid_to, created_at, embedding)
         VALUES (?1, ?2, ?3, ?4, ?5, ?6, ?7, ?8, ?9, ?10, 0, ?11, ?12, ?13, ?14)
         ON CONFLICT(id) DO UPDATE SET entity_type = excluded.entity_type, canonical_name = excluded.canonical_name, content = excluded.content, aliases_json = excluded.aliases_json, metadata_json = excluded.metadata_json, confidence = excluded.confidence, revision = excluded.revision, retracted = 0, valid_from = excluded.valid_from, valid_to = excluded.valid_to, embedding = COALESCE(excluded.embedding, entities.embedding)",
        (&row.id, &row.space_id, &row.space_slug, &row.entity_type, &row.canonical_name, &row.content, &row.aliases_json,
         &row.metadata_json, &row.confidence, row.revision, &row.valid_from, &row.valid_to, &row.created_at, embedding),
    )
}

/// `Connection::execute` on the import form of `INSERT INTO entities ... ON CONFLICT(id)
/// DO UPDATE`: writes `row` under `row.id`, as `imported_entity` describes.
#[verifier::external_body]
pub(crate) fn import_entity_row(conn: &mut Handle, row: &EntityRow, embedding: Option<&[u8]>) -> (r: Result<usize, rusqlite::Error>)
    ensures
        final(conn).file() == old(conn).file(),
        only_entities_differ(old(conn).connection(), final(conn).connection()),
        r is Ok ==> entity_table(final(conn).connection())[row.id@].confidence == stored_real_text(row.confidence@),
        match r {
            Ok(_) => entity_table(final(conn).connection()) == entity_table(old(conn).connection()).insert(
                row.id@,
                imported_entity(entity_table(old(conn).connection()).get(row.id@), row.written(embedding.deep_view())),
            ),
            Err(_) => entity_table(final(conn).connection()) == entity_table(old(conn).connection()),
        },
{
    conn.conn.execute(
        "INSERT INTO entities (id, space_id, space_slug, entity_type, canonical_name, content, aliases_json, metadata_json, confidence, revision, retracted, valid_from, valid_to, created_at, embedding)
         VALUES (?1, ?2, ?3, ?4, ?5, ?6, ?7, ?8, ?9, ?10, ?11, ?12, ?13, ?14, ?15)
         ON CONFLICT(id) DO UPDATE SET canonical_name = excluded.canonical_name, content = excluded.content, aliases_json = excluded.aliases_json, metadata_json = excluded.metadata_json, confidence = excluded.confidence, revision = excluded.revision, retracted = excluded.retracted, created_at = excluded.created_at, embedding = COALESCE(excluded.embedding, entities.embedding)",
        (&row.id, &row.space_id, &row.space_slug, &row.entity_type, &row.canonical_name, &row.content, &row.aliases_json,
         &row.metadata_json, &row.confidence, row.revision, row.retracted, &row.valid_from, &row.valid_to, &row.created_at, embedding),
    )
}

/// `Connection::execute` on `DELETE FROM entities_fts WHERE id = ?1`: drops every
/// index entry of entity `id`.
#[verifier::external_body]
pub(crate) fn delete_fts_rows(conn: &mut Handle, id: &str) -> (r: Result<usize, rusqlite::Error>)
    ensures
        final(conn).file() == old(conn).file(),
        only_fts_differs(old(conn).connection(), final(conn).connection()),
        match r {
            Ok(_) => forall|e: FtsEntry| #[trigger] fts_table(final(conn).connection()).count(e)
                == if e.0 == id@ { 0 } else { fts_table(old(conn).connection()).count(e) },
            Err(_) => fts_table(final(conn).connection()) == fts_table(old(conn).connection()),
        },
{
    conn.conn.execute("DELETE FROM entities_fts WHERE id = ?1", [id])
}

/// `Connection::execute` on `INSERT INTO entities_fts`: adds one index entry.
#[verifier::external_body]
pub(crate) fn insert_fts_row(conn: &mut Handle, id: &str, name: &str, content: &str, space: &str) -> (r: Result<usize, rusqlite::Error>)
    ensures
        final(conn).file() == old(conn).file(),
        only_fts_differs(old(conn).connection(), final(conn).connection()),
        match r {
            Ok(_) => fts_table(final(conn).connection()) == fts_table(old(conn).connection()).insert((id@, name@, content@, space@)),
            Err(_) => fts_table(final(conn).connection()) == fts_table(old(conn).connection()),
        },
{
    let sql = "INSERT INTO entities_fts (id, canonical_name, content, space_slug) VALUES (?1, ?2, ?3, ?4)";
    conn.conn.execute(sql, [id, name, content, space])
}

/// `Connection::execute` on `UPDATE entities SET retracted = 1 WHERE id = ?1`.
#[verifier::external_body]
pub(crate) fn retract_entity_row(conn: &mut Handle, id: &str) -> (r: Result<usize, rusqlite::Error>)
    ensures
        final(conn).file() == old(conn).file(),
        only_entities_differ(old(conn).connection(), final(conn).connection()),
        match r {
            Ok(_) => entity_table(final(conn).connection()) == if entity_table(old(conn).connection()).contains_key(id@) {
                entity_table(old(conn).connection()).insert(id@, EntityRecord { retracted: true, ..entity_table(old(conn).connection())[id@] })
            } else {
                entity_table(old(conn).connection())
            },
            Err(_) => entity_table(final(conn).connection()) == entity_table(old(conn).connection()),
        },
{
    conn.conn.execute("UPDATE entities SET retracted = 1 WHERE id = ?1", [id])
}

/// `Connection::execute` on `UPDATE claims SET retracted = 1 WHERE id = ?1`.
#[verifier::external_body]
pub(crate) fn retract_claim_row(conn: &mut Handle, id: &str) -> (r: Result<usize, rusqlite::Error>)
    ensures
        final(conn).file() == old(conn).file(),
        only_claims_differ(old(conn).connection(), final(conn).connection()),
        match r {
            Ok(_) => claim_table(final(conn).connection()) == if claim_table(old(conn).connection()).contains_key(id@) {
                claim_table(old(conn).connection()).insert(id@, ClaimRecord { retracted: true, ..claim_table(old(conn).connection())[id@] })
            } else {
                claim_table(old(conn).connection())
            },
            Err(_) => claim_table(final(conn).connection()) == claim_table(old(conn).connection()),
        },
{
    conn.conn.execute("UPDATE claims SET retracted = 1 WHERE id = ?1", [id])
}

/// `Connection::query_row` on `SELECT id FROM entities WHERE (id = ?1 OR
/// canonical_name = ?1) AND space_slug = ?2 AND retracted = 0 LIMIT 1`: one visible
/// entity of space `space` whose id or name is `key`, if there is one.
#[verifier::external_body]
pub(crate) fn visible_entity_id(conn: &Handle, key: &str, space: &str) -> (r: Result<Option<String>, rusqlite::Error>)
    ensures
        match r {
            Ok(Some(id)) => entity_table(conn.connection()).contains_key(id@)
                && visible_in(entity_table(conn.connection())[id@], space@)
                && (id@ == key@ || entity_table(conn.connection())[id@].canonical_name == key@),
            Ok(None) => forall|k: Seq<char>| #[trigger] entity_table(conn.connection()).contains_key(k)
                ==> !(visible_in(entity_table(conn.connection())[k], space@) && (k == key@ || entity_table(conn.connection())[k].canonical_name == key@)),
            Err(_) => true,
        },
{
    let sql = "SELECT id FROM entities WHERE (id = ?1 OR canonical_name = ?1) AND space_slug = ?2 AND retracted = 0 LIMIT 1";
    conn.conn.query_row(sql, [key, space], |r| r.get(0)).optional()
}

/// `Connection::query_row` on `SELECT ... FROM entities WHERE id = ?1`: the stored
/// row of entity `id` (its confidence read back as text), if there is one.
#[verifier::external_body]
pub(crate) fn entity_by_id(conn: &Handle, id: &str) -> (r: Result<Option<EntityRow>, rusqlite::Error>)
    ensures
        match r {
            Ok(Some(row)) => entity_table(conn.connection()).contains_key(id@) && row.reads(id@, entity_table(conn.connection())[id@]),
            Ok(None) => !entity_table(conn.connection()).contains_key(id@),
            Err(_) => true,
        },
{
    conn.conn.query_row(
        "SELECT id, space_id, space_slug, entity_type, canonical_name, content, aliases_json, metadata_json, printf('%!.17g', confidence), revision, retracted, valid_from, valid_to, created_at FROM entities WHERE id = ?1",
        [id],
        |r| Ok(EntityRow { id: r.get(0)?, space_id: r.get(1)?, space_slug: r.get(2)?, entity_type: r.get(3)?,
            canonical_name: r.get(4)?, content: r.get(5)?, aliases_json: r.get(6)?, metadata_json: r.get(7)?,
            confidence: r.get(8)?, revision: r.get(9)?, retracted: r.get(10)?, valid_from: r.get(11)?,
            valid_to: r.get(12)?, created_at: r.get(13)? }),
    ).optional()
}

/// `Statement::query_map` on `SELECT id FROM entities WHERE space_slug = ?1 AND
/// retracted = 0 ORDER BY created_at DESC LIMIT ?2`: the ids of the most recently
/// created visible entities of space `space`, newest first, at most `limit` of them:
/// no visible entity left out was created after the last one listed (`created_at`
/// compares as text, byte by byte, which is the order of the characters).
#[verifier::external_body]
pub(crate) fn recent_entity_ids(conn: &Handle, space: &str, limit: usize) -> (r: Result<Vec<String>, rusqlite::Error>)
    ensures
        match r {
            Ok(ids) => {
                &&& ids@.len() <= limit
                &&& distinct(ids.deep_view())
                &&& forall|i: int| 0 <= i < ids@.len() ==> entity_table(conn.connection()).contains_key(#[trigger] ids@[i]@)
                    && visible_in(entity_table(conn.connection())[ids@[i]@], space@)
                &&& forall|i: int| 0 <= i < ids@.len() - 1 ==> text_le(entity_table(conn.connection())[#[trigger] ids@[i + 1]@].created_at,
                    entity_table(conn.connection())[ids@[i]@].created_at)
                &&& ids@.len() < limit ==> forall|k: Seq<char>| #[trigger] entity_table(conn.connection()).contains_key(k)
                    && visible_in(entity_table(conn.connection())[k], space@) ==> ids.deep_view().contains(k)
                &&& ids@.len() > 0 ==> forall|k: Seq<char>| #[trigger] entity_table(conn.connection()).contains_key(k)
                    && visible_in(entity_table(conn.connection())[k], space@) && !ids.deep_view().contains(k)
                    ==> text_le(entity_table(conn.connection())[k].created_at, entity_table(conn.connection())[ids@[ids@.len() - 1]@].created_at)
            },
            Err(_) => true,
        },
{
    let sql = "SELECT id FROM entities WHERE space_slug = ?1 AND retracted = 0 ORDER BY created_at DESC LIMIT ?2";
    let mut stmt = conn.conn.prepare(sql)?;
    let rows = stmt.query_map((space, limit), |r| r.get(0))?;
    rows.collect()
}

/// Whether the FTS5 expression `query` matches an index row with this name and
/// content (the `unicode61` tokenizer, both columns searched).
pub uninterp spec fn fts_match(query: Seq<char>, name: Seq<char>, content: Seq<char>) -> bool;

/// The text that `printf('%!.17g', COALESCE(bm25(entities_fts), 5))` gives for index
/// entry `entry` matched by the FTS5 expression `query`, in an index holding `index`.
pub uninterp spec fn bm25_rank_text(query: Seq<char>, index: Multiset<FtsEntry>, entry: FtsEntry) -> Seq<char>;

/// The value of `COALESCE(bm25(entities_fts), 5)` for entry `a` is at most that for
/// entry `b` (a lower value is a better rank), under the FTS5 expression `query` in
/// an index holding `index`.
pub uninterp spec fn bm25_at_most(query: Seq<char>, index: Multiset<FtsEntry>, a: FtsEntry, b: FtsEntry) -> bool;

/// `Statement::query_map` on the full-text query (the `entities` rows joined with their
/// index entries): entities of space `space`, not retracted, with an index entry that
/// the FTS5 expression `query` matches, best BM25 rank first, at most `limit` rows;
/// each row with the entry's columns and its rank as decimal text. The join gives
/// one row per matching index entry, so when every entity has at most one entry no
/// entity comes twice. A row that cannot be read comes back as an error in its place.
/// When fewer than `limit` rows come back and none is an error, every such entity is
/// among them.
#[verifier::external_body]
pub(crate) fn fts_hits(conn: &Handle, query: &str, space: &str, limit: usize) -> (r: Result<Vec<Result<FtsHit, rusqlite::Error>>, rusqlite::Error>)
    ensures
        match r {
            Ok(rows) => {
                &&& rows@.len() <= limit
                &&& forall|i: int| 0 <= i < rows@.len() ==> (#[trigger] rows@[i] matches Ok(h) ==> {
                    &&& entity_table(conn.connection()).contains_key(h.id@)
                    &&& visible_in(entity_table(conn.connection())[h.id@], space@)
                    &&& fts_table(conn.connection()).count(h.entry()) > 0
                    &&& fts_match(query@, h.name@, h.content@)
                    &&& h.rank@ == bm25_rank_text(query@, fts_table(conn.connection()), h.entry())
                })
                &&& forall|i: int, j: int| 0 <= i < j < rows@.len() ==> (#[trigger] rows@[i] matches Ok(a)
                    ==> (#[trigger] rows@[j] matches Ok(b) ==> bm25_at_most(query@, fts_table(conn.connection()), a.entry(), b.entry())))
                &&& fts_single(fts_table(conn.connection())) ==> forall|i: int, j: int| 0 <= i < j < rows@.len() ==> (#[trigger] rows@[i] matches Ok(a)
                    ==> (#[trigger] rows@[j] matches Ok(b) ==> a.id@ != b.id@))
                &&& rows@.len() < limit && (forall|i: int| 0 <= i < rows@.len() ==> #[trigger] rows@[i] is Ok)
                    ==> forall|k: Seq<char>, e: FtsEntry| #[trigger] entity_table(conn.connection()).contains_key(k)
                    && visible_in(entity_table(conn.connection())[k], space@) && e.0 == k && #[trigger] fts_table(conn.connection()).count(e) > 0
                    && fts_match(query@, e.1, e.2) ==> exists|i: int| 0 <= i < rows@.len() && (#[trigger] rows@[i] matches Ok(h) && h.id@ == k)
            },
            Err(_) => true,
        },
{
    let mut stmt = conn.conn.prepare(
        "SELECT e.id, f.canonical_name, f.content, f.space_slug, printf('%!.17g', COALESCE(bm25(entities_fts), 5))
         FROM entities e JOIN entities_fts f ON f.id = e.id
         WHERE entities_fts MATCH ?1 AND e.space_slug = ?2 AND e.retracted = 0 ORDER BY COALESCE(bm25(entities_fts), 5) ASC LIMIT ?3",
    )?;
    let rows = stmt.query_map((query, space, limit), |r| {
        Ok(FtsHit { id: r.get(0)?, name: r.get(1)?, content: r.get(2)?, index_space: r.get(3)?, rank: r.get(4)? })
    })?;
    Ok(rows.collect())
}

/// `Statement::query_map` on `SELECT id FROM entities WHERE (canonical_name LIKE ?1 OR
/// content LIKE ?1) AND space_slug = ?2 AND retracted = 0 LIMIT ?3`: visible entities
/// of space `space` whose name or content matches the `LIKE` pattern, at most `limit`
/// of them, in no stated order. SQLite's `like()` reads the pattern and the text as
/// NUL-terminated strings, so both count only up to a first NUL (see `sql_like`).
#[verifier::external_body]
pub(crate) fn like_entity_ids(conn: &Handle, pattern: &str, space: &str, limit: usize) -> (r: Result<Vec<String>, rusqlite::Error>)
    ensures
        match r {
            Ok(ids) => {
                &&& ids@.len() <= limit
                &&& distinct(ids.deep_view())
                &&& forall|i: int| 0 <= i < ids@.len() ==> entity_table(conn.connection()).contains_key(#[trigger] ids@[i]@)
                    && visible_in(entity_table(conn.connection())[ids@[i]@], space@)
                    && (crate::text::sql_like(pattern@, entity_table(conn.connection())[ids@[i]@].canonical_name)
                        || crate::text::sql_like(pattern@, entity_table(conn.connection())[ids@[i]@].content))
                &&& ids@.len() < limit ==> forall|k: Seq<char>| #[trigger] entity_table(conn.connection()).contains_key(k)
                    && visible_in(entity_table(conn.connection())[k], space@)
                    && (crate::text::sql_like(pattern@, entity_table(conn.connection())[k].canonical_name)
                        || crate::text::sql_like(pattern@, entity_table(conn.connection())[k].content)) ==> ids.deep_view().contains(k)
            },
            Err(_) => true,
        },
{
    let sql = "SELECT id FROM entities WHERE (canonical_name LIKE ?1 OR content LIKE ?1) AND space_slug = ?2 AND retracted = 0 LIMIT ?3";
    let mut stmt = conn.conn.prepare(sql)?;
    let rows = stmt.query_map((pattern, space, limit), |r| r.get(0))?;
    rows.collect()
}

/// `Statement::query_map` on `SELECT id, embedding FROM entities WHERE space_slug = ?1
/// AND retracted = 0`: every visible entity of space `space`, once, with its embedding.
#[verifier::external_body]
pub(crate) fn visible_entities(conn: &Handle, space: &str) -> (r: Result<Vec<(String, Option<Vec<u8>>)>, rusqlite::Error>)
    ensures
        match r {
            Ok(rows) => {
                &&& distinct(rows@.map_values(|p: (String, Option<Vec<u8>>)| p.0@))
                &&& forall|i: int| 0 <= i < rows@.len() ==> entity_table(conn.connection()).contains_key(#[trigger] rows@[i].0@)
                    && visible_in(entity_table(conn.connection())[rows@[i].0@], space@)
                    && entity_table(conn.connection())[rows@[i].0@].embedding == rows@[i].1.deep_view()
                &&& forall|k: Seq<char>| #[trigger] entity_table(conn.connection()).contains_key(k) && visible_in(entity_table(conn.connection())[k], space@)
                    ==> exists|i: int| 0 <= i < rows@.len() && #[trigger] rows@[i].0@ == k
            },
            Err(_) => true,
        },
{
    let mut stmt = conn.conn.prepare("SELECT id, embedding FROM entities WHERE space_slug = ?1 AND retracted = 0")?;
    let rows = stmt.query_map([space], |r| Ok((r.get(0)?, r.get(1)?)))?;
    rows.collect()
}

/// `Connection::execute` on `INSERT INTO claims ... ON CONFLICT(id) DO UPDATE`:
/// writes `row` (not retracted) under `row.id`, as `upserted_claim` describes.
#[verifier::external_body]
pub(crate) fn upsert_claim_row(conn: &mut Handle, row: &ClaimRow) -> (r: Result<usize, rusqlite::Error>)
    ensures
        final(conn).file() == old(conn).file(),
        only_claims_differ(old(conn).connection(), final(conn).connection()),
        r is Ok ==> claim_table(final(conn).connection())[row.id@].confidence == stored_real_text(row.confidence@),
        match r {
            Ok(_) => claim_table(final(conn).connection()) == claim_table(old(conn).connection()).insert(
                row.id@,
                upserted_claim(claim_table(old(conn).connection()).get(row.id@), row.written()),
            ),
            Err(_) => claim_table(final(conn).connection()) == claim_table(old(conn).connection()),
        },
{
    conn.conn.execute(
        "INSERT INTO claims (id, space_id, space_slug, subject_entity_id, predicate, object_entity_id, literal_value_json, confidence, metadata_json, retracted, created_at)
         VALUES (?1, ?2, ?3, ?4, ?5, ?6, ?7, ?8, ?9, 0, ?10)
         ON CONFLICT(id) DO UPDATE SET predicate = excluded.predicate, object_entity_id = excluded.object_entity_id, literal_value_json = excluded.literal_value_json, confidence = excluded.confidence, metadata_json = excluded.metadata_json, retracted = 0",
        (&row.id, &row.space_id, &row.space_slug, &row.subject_entity_id, &row.predicate, &row.object_entity_id,
         &row.literal_value_json, &row.confidence, &row.metadata_json, &row.created_at),
    )
}

/// The claim touches entity `subject` (as subject or as object) in space `space`
/// and is not retracted.
pub open spec fn claim_touches(rec: ClaimRecord, subject: Seq<char>, space: Seq<char>) -> bool {
    &&& (rec.subject_entity_id == subject || rec.object_entity_id == Some(subject))
    &&& rec.space_slug == space
    &&& !rec.retracted
}

/// `Statement::query_map` on `SELECT id FROM claims WHERE (subject_entity_id = ?1 OR
/// object_entity_id = ?1) AND space_slug = ?2 AND retracted = 0`: every claim that
/// touches `subject` in space `space`, once.
#[verifier::external_body]
pub(crate) fn claim_ids_touching(conn: &Handle, subject: &str, space: &str) -> (r: Result<Vec<String>, rusqlite::Error>)
    ensures
        match r {
            Ok(ids) => {
                &&& distinct(ids.deep_view())
                &&& forall|i: int| 0 <= i < ids@.len() ==> claim_table(conn.connection()).contains_key(#[trigger] ids@[i]@)
                    && claim_touches(claim_table(conn.connection())[ids@[i]@], subject@, space@)
                &&& forall|k: Seq<char>| #[trigger] claim_table(conn.connection()).contains_key(k)
                    && claim_touches(claim_table(conn.connection())[k], subject@, space@) ==> ids.deep_view().contains(k)
            },
            Err(_) => true,
        },
{
    let sql = "SELECT id FROM claims WHERE (subject_entity_id = ?1 OR object_entity_id = ?1) AND space_slug = ?2 AND retracted = 0";
    let mut stmt = conn.conn.prepare(sql)?;
    let rows = stmt.query_map([subject, space], |r| r.get(0))?;
    rows.collect()
}

/// `Connection::query_row` on `SELECT ... FROM claims WHERE id = ?1`: the stored row
/// of claim `id` (its confidence read back as text), if there is one.
#[verifier::external_body]
pub(crate) fn claim_by_id(conn: &Handle, id: &str) -> (r: Result<Option<ClaimRow>, rusqlite::Error>)
    ensures
        match r {
            Ok(Some(row)) => claim_table(conn.connection()).contains_key(id@) && row.reads(id@, claim_table(conn.connection())[id@]),
            Ok(None) => !claim_table(conn.connection()).contains_key(id@),
            Err(_) => true,
        },
{
    conn.conn.query_row(
        "SELECT id, space_id, space_slug, subject_entity_id, predicate, object_entity_id, literal_value_json, printf('%!.17g', confidence), metadata_json, retracted, created_at FROM claims WHERE id = ?1",
        [id],
        |r| Ok(ClaimRow { id: r.get(0)?, space_id: r.get(1)?, space_slug: r.get(2)?, subject_entity_id: r.get(3)?,
            predicate: r.get(4)?, object_entity_id: r.get(5)?, literal_value_json: r.get(6)?, confidence: r.get(7)?,
            metadata_json: r.get(8)?, retracted: r.get(9)?, created_at: r.get(10)? }),
    ).optional()
}

/// The `Display` text of a SQLite error. What it says is not stated.
#[verifier::external_body]
pub(crate) fn error_text(e: &rusqlite::Error) -> (r: String) {
    e.to_string()
}

} // verus!
