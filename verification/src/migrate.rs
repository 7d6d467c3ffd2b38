//! One-time migration of a legacy database (`vec0` virtual-table embeddings)
//! into a fresh one (`F32_BLOB` embedding columns), which then takes its
//! place; the legacy file is kept as a backup.
//!
//! Embeddings are copied as raw little-endian blobs, byte for byte, and image
//! ids are preserved with explicit `INSERT … (id, …)` writes, so every foreign
//! key and per-model embedding link survives.

use vstd::prelude::*;
use vstd::string::*;
use crate::database::{
    is_plain_identifier, plain_identifier, statements, Statement, StatementModel,
};
use crate::paths::{with_extension, with_extension_text};
use crate::schema::{create_vector_table, vector_table_sql};
use crate::sql::{
    opt_f64, opt_i64, opt_int_model, opt_real_model, opt_text, opt_text_model, text_of, values,
    SqlModel, SqlValue,
};
use crate::text::same;
use crate::units::EmbeddingDim;

verus! {

/// Outcome of a migration.
#[derive(Debug, Clone, Copy, PartialEq, Eq, Structural)]
pub enum MigrateOutcome {
    /// The file was already in the new format; nothing was touched.
    AlreadyMigrated,
    /// A legacy database was migrated. Counts are copied-row totals.
    Migrated { images: usize, embeddings: usize, thumbnails: usize },
}

/// Why a database was not migrated.
#[derive(Debug, Clone, Copy, PartialEq, Eq, Structural)]
pub enum MigrateError {
    /// There is no database.
    NoDatabase,
    /// There is a backup already, and it is not to be overwritten.
    BackupExists,
    /// A leftover temporary file could not be removed.
    StaleTemp,
    /// The legacy database could not be read.
    ReadFailed,
    /// The new database could not be written.
    WriteFailed,
    /// The sidecars of the new database could not be removed.
    TempSidecars,
    /// The legacy database could not be renamed to its backup.
    BackupFailed,
    /// The sidecars of the legacy database could not be removed.
    LegacySidecars,
    /// The new database could not be put into place.
    InstallFailed,
    /// A vector table has a name that is no plain identifier.
    InvalidTableName,
}

/// A registered embedding model of the legacy database.
#[derive(Debug, Clone)]
pub struct LegacyModel {
    pub name: String,
    pub dim: EmbeddingDim,
    pub table_name: String,
    pub is_active: bool,
}

/// A row of the legacy `images` table.
#[derive(Debug, Clone)]
pub struct LegacyImage {
    pub id: i64,
    pub path: String,
    pub hash: String,
    pub created_at: Option<String>,
}

/// A stored embedding: the image it belongs to, and its raw bytes.
#[derive(Debug, Clone)]
pub struct LegacyEmbedding {
    pub image_id: i64,
    pub blob: Vec<u8>,
}

/// The embeddings of one vector table.
#[derive(Debug, Clone)]
pub struct EmbeddingTable {
    pub table: String,
    pub rows: Vec<LegacyEmbedding>,
}

/// A row of the legacy `thumbnails` table.
#[derive(Debug, Clone)]
pub struct LegacyThumbnail {
    pub hash: String,
    pub size: i64,
    pub blob: Vec<u8>,
}

/// A row of the legacy `image_metadata` table. The coordinates are the bits of
/// double-precision numbers.
#[derive(Debug, Clone)]
pub struct MetadataRow {
    pub image_id: i64,
    pub file_size: Option<i64>,
    pub width: Option<i64>,
    pub height: Option<i64>,
    pub latitude_bits: Option<u64>,
    pub longitude_bits: Option<u64>,
    pub camera_make: Option<String>,
    pub camera_model: Option<String>,
    pub datetime_taken: Option<String>,
}

/// A row of the legacy `favorites` table.
#[derive(Debug, Clone)]
pub struct LegacyFavorite {
    pub image_id: i64,
    pub created_at: Option<String>,
}

/// A row of an id and a name.
#[derive(Debug, Clone)]
pub struct IdName {
    pub id: i64,
    pub name: String,
}

/// A row of two ids.
#[derive(Debug, Clone, Copy)]
pub struct IdPair {
    pub first: i64,
    pub second: i64,
}

/// Everything read out of the legacy database, held in memory for the writer.
#[derive(Debug, Clone)]
pub struct LegacyData {
    pub models: Vec<LegacyModel>,
    pub images: Vec<LegacyImage>,
    pub embeddings: Vec<EmbeddingTable>,
    pub thumbnails: Vec<LegacyThumbnail>,
    pub metadata: Vec<MetadataRow>,
    pub favorites: Vec<LegacyFavorite>,
    pub tags: Vec<IdName>,
    pub image_tags: Vec<IdPair>,
    pub collections: Vec<IdName>,
    pub collection_images: Vec<IdPair>,
    pub ui_state: Option<String>,
}

/// The number of embeddings in some tables.
pub open spec fn embedding_total(tables: Seq<EmbeddingTable>) -> nat
    decreases tables.len(),
{
    if tables.len() == 0 {
        0
    } else {
        embedding_total(tables.drop_last()) + tables.last().rows@.len()
    }
}

proof fn embedding_total_grows(tables: Seq<EmbeddingTable>, n: int)
    requires
        0 <= n <= tables.len(),
    ensures
        embedding_total(tables.take(n)) <= embedding_total(tables),
    decreases tables.len(),
{
    if n == tables.len() {
        assert(tables.take(n) == tables);
    } else {
        assert(tables.drop_last().take(n) == tables.take(n));
        embedding_total_grows(tables.drop_last(), n);
    }
}

impl LegacyData {
    /// `(images, embeddings, thumbnails)` row counts.
    pub fn counts(&self) -> (r: (usize, usize, usize))
        requires
            embedding_total(self.embeddings@) <= usize::MAX,
        ensures
            r.0 == self.images@.len(),
            r.1 == embedding_total(self.embeddings@),
            r.2 == self.thumbnails@.len(),
    {
        let mut total: usize = 0;
        let mut i: usize = 0;
        assert(self.embeddings@.take(0) == Seq::<EmbeddingTable>::empty());
        while i < self.embeddings.len()
            invariant
                i <= self.embeddings@.len(),
                embedding_total(self.embeddings@) <= usize::MAX,
                total == embedding_total(self.embeddings@.take(i as int)),
            decreases self.embeddings@.len() - i,
        {
            proof {
                assert(self.embeddings@.take(i + 1).drop_last() == self.embeddings@.take(i as int));
                embedding_total_grows(self.embeddings@, i + 1);
            }
            total = total + self.embeddings[i].rows.len();
            i = i + 1;
        }
        assert(self.embeddings@.take(i as int) == self.embeddings@);
        (self.images.len(), total, self.thumbnails.len())
    }
}

/// A statement without bound values.
pub open spec fn plain(sql: Seq<char>) -> StatementModel {
    StatementModel { sql, params: Seq::empty() }
}

/// The statements that carry one model over: its vector table, unless it is
/// the one that every new database has, and its entry.
pub open spec fn model_statements(m: LegacyModel) -> Seq<StatementModel> {
    (if m.table_name@ == "image_vectors"@ {
        Seq::empty()
    } else {
        seq![plain(vector_table_sql(m.table_name@, m.dim.0 as nat))]
    }) + seq![
        StatementModel {
            sql: "INSERT INTO models (name, dim, table_name, is_active) VALUES (?1, ?2, ?3, ?4)"@,
            params: seq![
                SqlModel::Text(m.name@),
                SqlModel::Integer((m.dim.0 as i64) as int),
                SqlModel::Text(m.table_name@),
                SqlModel::Integer(
                    if m.is_active {
                        1
                    } else {
                        0
                    },
                ),
            ],
        },
    ]
}

/// The statements that carry the first `n` models over.
pub open spec fn models_statements(models: Seq<LegacyModel>, n: nat) -> Seq<StatementModel>
    decreases n,
{
    if n == 0 {
        seq![plain("DELETE FROM models"@)]
    } else {
        models_statements(models, (n - 1) as nat) + model_statements(models[n - 1])
    }
}

/// The statement that carries an image over, under its own id.
pub open spec fn image_statement(r: LegacyImage) -> StatementModel {
    StatementModel {
        sql: "INSERT INTO images (id, path, hash, created_at) VALUES (?1, ?2, ?3, ?4)"@,
        params: seq![
            SqlModel::Integer(r.id as int),
            SqlModel::Text(r.path@),
            SqlModel::Text(r.hash@),
            opt_text_model(text_of(r.created_at)),
        ],
    }
}

/// The statement that carries an embedding over, byte for byte.
pub open spec fn embedding_statement(table: Seq<char>, r: LegacyEmbedding) -> StatementModel {
    StatementModel {
        sql: "INSERT INTO "@ + table + " (image_id, embedding) VALUES (?1, ?2)"@,
        params: seq![SqlModel::Integer(r.image_id as int), SqlModel::Blob(r.blob@)],
    }
}

/// The statements that carry a table of embeddings over.
pub open spec fn table_statements(t: EmbeddingTable) -> Seq<StatementModel> {
    t.rows@.map_values(|r: LegacyEmbedding| embedding_statement(t.table@, r))
}

/// The statements that carry the first `n` tables of embeddings over.
pub open spec fn tables_statements(tables: Seq<EmbeddingTable>, n: nat) -> Seq<StatementModel>
    decreases n,
{
    if n == 0 {
        Seq::empty()
    } else {
        tables_statements(tables, (n - 1) as nat) + table_statements(tables[n - 1])
    }
}

/// The statement that carries a thumbnail over.
pub open spec fn thumbnail_statement(r: LegacyThumbnail) -> StatementModel {
    StatementModel {
        sql: "INSERT INTO thumbnails (image_hash, size, thumbnail_data) VALUES (?1, ?2, ?3)"@,
        params: seq![
            SqlModel::Text(r.hash@),
            SqlModel::Integer(r.size as int),
            SqlModel::Blob(r.blob@),
        ],
    }
}

/// The statement that carries an image's metadata over.
pub open spec fn metadata_statement(r: MetadataRow) -> StatementModel {
    StatementModel {
        sql: "INSERT INTO image_metadata (image_id, file_size, width, height, latitude, longitude, camera_make, camera_model, datetime_taken) VALUES (?1, ?2, ?3, ?4, ?5, ?6, ?7, ?8, ?9)"@,
        params: seq![
            SqlModel::Integer(r.image_id as int),
            opt_int_model(r.file_size),
            opt_int_model(r.width),
            opt_int_model(r.height),
            opt_real_model(r.latitude_bits),
            opt_real_model(r.longitude_bits),
            opt_text_model(text_of(r.camera_make)),
            opt_text_model(text_of(r.camera_model)),
            opt_text_model(text_of(r.datetime_taken)),
        ],
    }
}

/// The statement that carries a favorite over, with its time.
pub open spec fn favorite_statement(r: LegacyFavorite) -> StatementModel {
    StatementModel {
        sql: "INSERT INTO favorites (image_id, created_at) VALUES (?1, ?2)"@,
        params: seq![SqlModel::Integer(r.image_id as int), opt_text_model(text_of(r.created_at))],
    }
}

/// A statement that carries a row of an id and a name over.
pub open spec fn id_name_statement(sql: Seq<char>, r: IdName) -> StatementModel {
    StatementModel { sql, params: seq![SqlModel::Integer(r.id as int), SqlModel::Text(r.name@)] }
}

/// A statement that carries a row of two ids over.
pub open spec fn id_pair_statement(sql: Seq<char>, r: IdPair) -> StatementModel {
    StatementModel {
        sql,
        params: seq![SqlModel::Integer(r.first as int), SqlModel::Integer(r.second as int)],
    }
}

/// The statement that carries the session state over, if there is one.
pub open spec fn ui_state_statements(state: Option<String>) -> Seq<StatementModel> {
    match state {
        Some(json) => seq![
            StatementModel {
                sql: "INSERT INTO ui_state (id, state_json) VALUES (1, ?1)"@,
                params: seq![SqlModel::Text(json@)],
            },
        ],
        None => Seq::empty(),
    }
}

/// Everything that is written into the new database, in order. Rows come
/// after the rows that they refer to.
pub open spec fn copy_statements(d: LegacyData) -> Seq<StatementModel> {
    models_statements(d.models@, d.models@.len()) + d.images@.map_values(
        |r: LegacyImage| image_statement(r),
    ) + tables_statements(d.embeddings@, d.embeddings@.len()) + d.thumbnails@.map_values(
        |r: LegacyThumbnail| thumbnail_statement(r),
    ) + d.metadata@.map_values(|r: MetadataRow| metadata_statement(r)) + d.favorites@.map_values(
        |r: LegacyFavorite| favorite_statement(r),
    ) + d.tags@.map_values(
        |r: IdName| id_name_statement("INSERT INTO tags (id, name) VALUES (?1, ?2)"@, r),
    ) + d.image_tags@.map_values(
        |r: IdPair|
            id_pair_statement("INSERT INTO image_tags (image_id, tag_id) VALUES (?1, ?2)"@, r),
    ) + d.collections@.map_values(
        |r: IdName| id_name_statement("INSERT INTO collections (id, name) VALUES (?1, ?2)"@, r),
    ) + d.collection_images@.map_values(
        |r: IdPair|
            id_pair_statement(
                "INSERT INTO collection_images (collection_id, image_id) VALUES (?1, ?2)"@,
                r,
            ),
    ) + ui_state_statements(d.ui_state)
}

/// Whether every vector table can be created and written: models other than
/// the baseline need a non-empty plain identifier, and so do tables of
/// embeddings, but for emptiness.
pub open spec fn valid_tables(d: LegacyData) -> bool {
    &&& forall|i: int| 0 <= i < d.models@.len() ==> valid_model_table(#[trigger] d.models@[i])
    &&& forall|i: int|
        0 <= i < d.embeddings@.len() ==> plain_identifier((#[trigger] d.embeddings@[i]).table@)
}

/// Whether the vector table of a model can be created.
pub open spec fn valid_model_table(m: LegacyModel) -> bool {
    m.table_name@ == "image_vectors"@ || (m.table_name@.len() > 0 && plain_identifier(
        m.table_name@,
    ))
}

fn push_statement(out: &mut Vec<Statement>, sql: &str, params: Vec<SqlValue>)
    ensures
        statements(final(out)@) == statements(old(out)@) + seq![
            StatementModel { sql: sql@, params: values(params@) },
        ],
{
    let ghost before = out@;
    let s: Statement = Statement { sql: sql.to_owned(), params };
    out.push(s);
    assert(statements(out@) == statements(before) + seq![s@]);
}

fn push_model(out: &mut Vec<Statement>, m: &LegacyModel) -> (ok: bool)
    ensures
        ok == valid_model_table(*m),
        ok ==> statements(final(out)@) == statements(old(out)@) + model_statements(*m),
{
    let ghost start = statements(out@);
    if !same(m.table_name.as_str(), "image_vectors") {
        match create_vector_table(m.table_name.as_str(), m.dim) {
            Ok(sql) => {
                let params: Vec<SqlValue> = Vec::new();
                assert(values(params@) == Seq::<SqlModel>::empty());
                push_statement(out, sql.as_str(), params);
            },
            Err(_) => {
                return false;
            },
        }
    }
    let params: Vec<SqlValue> = vec![
        SqlValue::Text(m.name.clone()),
        SqlValue::Integer(m.dim.get() as i64),
        SqlValue::Text(m.table_name.clone()),
        SqlValue::Integer(if m.is_active { 1 } else { 0 }),
    ];
    assert(values(params@) == seq![
        SqlModel::Text(m.name@),
        SqlModel::Integer((m.dim.0 as i64) as int),
        SqlModel::Text(m.table_name@),
        SqlModel::Integer(
            if m.is_active {
                1
            } else {
                0
            },
        ),
    ]);
    push_statement(
        out,
        "INSERT INTO models (name, dim, table_name, is_active) VALUES (?1, ?2, ?3, ?4)",
        params,
    );
    assert(statements(out@) == start + model_statements(*m));
    true
}

fn push_models(out: &mut Vec<Statement>, models: &Vec<LegacyModel>) -> (ok: bool)
    ensures
        ok == (forall|i: int| 0 <= i < models@.len() ==> valid_model_table(#[trigger] models@[i])),
        ok ==> statements(final(out)@) == statements(old(out)@) + models_statements(
            models@,
            models@.len(),
        ),
{
    let ghost start = statements(out@);
    let none: Vec<SqlValue> = Vec::new();
    assert(values(none@) == Seq::<SqlModel>::empty());
    push_statement(out, "DELETE FROM models", none);
    let mut i: usize = 0;
    assert(statements(out@) == start + models_statements(models@, 0));
    while i < models.len()
        invariant
            i <= models@.len(),
            forall|k: int| 0 <= k < i ==> valid_model_table(#[trigger] models@[k]),
            statements(out@) == start + models_statements(models@, i as nat),
        decreases models@.len() - i,
    {
        if !push_model(out, &models[i]) {
            assert(!valid_model_table(models@[i as int]));
            return false;
        }
        i = i + 1;
        assert(statements(out@) == start + models_statements(models@, i as nat));
    }
    true
}

fn push_images(out: &mut Vec<Statement>, rows: &Vec<LegacyImage>)
    ensures
        statements(final(out)@) == statements(old(out)@) + rows@.map_values(
            |r: LegacyImage| image_statement(r),
        ),
{
    let ghost start = statements(out@);
    let ghost want = rows@.map_values(|r: LegacyImage| image_statement(r));
    let mut i: usize = 0;
    assert(start + want.take(0) == start);
    while i < rows.len()
        invariant
            i <= rows@.len(),
            want == rows@.map_values(|r: LegacyImage| image_statement(r)),
            statements(out@) == start + want.take(i as int),
        decreases rows@.len() - i,
    {
        let r: &LegacyImage = &rows[i];
        let params: Vec<SqlValue> = vec![
            SqlValue::Integer(r.id),
            SqlValue::Text(r.path.clone()),
            SqlValue::Text(r.hash.clone()),
            opt_text(&r.created_at),
        ];
        assert(values(params@) == image_statement(*r).params);
        push_statement(
            out,
            "INSERT INTO images (id, path, hash, created_at) VALUES (?1, ?2, ?3, ?4)",
            params,
        );
        assert(want.take(i + 1) == want.take(i as int) + seq![want[i as int]]);
        i = i + 1;
    }
    assert(want.take(i as int) == want);
}

fn push_table(out: &mut Vec<Statement>, t: &EmbeddingTable)
    ensures
        statements(final(out)@) == statements(old(out)@) + table_statements(*t),
{
    let ghost start = statements(out@);
    let ghost want = table_statements(*t);
    let sql: String = "INSERT INTO ".to_owned().concat(t.table.as_str()).concat(
        " (image_id, embedding) VALUES (?1, ?2)",
    );
    let mut i: usize = 0;
    assert(start + want.take(0) == start);
    while i < t.rows.len()
        invariant
            i <= t.rows@.len(),
            want == table_statements(*t),
            sql@ == "INSERT INTO "@ + t.table@ + " (image_id, embedding) VALUES (?1, ?2)"@,
            statements(out@) == start + want.take(i as int),
        decreases t.rows@.len() - i,
    {
        let r: &LegacyEmbedding = &t.rows[i];
        let params: Vec<SqlValue> = vec![
            SqlValue::Integer(r.image_id),
            SqlValue::Blob(vstd::slice::slice_to_vec(r.blob.as_slice())),
        ];
        assert(values(params@) == embedding_statement(t.table@, *r).params);
        push_statement(out, sql.as_str(), params);
        assert(want.take(i + 1) == want.take(i as int) + seq![want[i as int]]);
        i = i + 1;
    }
    assert(want.take(i as int) == want);
}

fn push_tables(out: &mut Vec<Statement>, tables: &Vec<EmbeddingTable>) -> (ok: bool)
    ensures
        ok == (forall|i: int|
            0 <= i < tables@.len() ==> plain_identifier((#[trigger] tables@[i]).table@)),
        ok ==> statements(final(out)@) == statements(old(out)@) + tables_statements(
            tables@,
            tables@.len(),
        ),
{
    let ghost start = statements(out@);
    let mut i: usize = 0;
    assert(start + tables_statements(tables@, 0) == start);
    while i < tables.len()
        invariant
            i <= tables@.len(),
            forall|k: int| 0 <= k < i ==> plain_identifier((#[trigger] tables@[k]).table@),
            statements(out@) == start + tables_statements(tables@, i as nat),
        decreases tables@.len() - i,
    {
        if !is_plain_identifier(tables[i].table.as_str()) {
            assert(!plain_identifier(tables@[i as int].table@));
            return false;
        }
        push_table(out, &tables[i]);
        i = i + 1;
        assert(statements(out@) == start + tables_statements(tables@, i as nat));
    }
    true
}

fn push_thumbnails(out: &mut Vec<Statement>, rows: &Vec<LegacyThumbnail>)
    ensures
        statements(final(out)@) == statements(old(out)@) + rows@.map_values(
            |r: LegacyThumbnail| thumbnail_statement(r),
        ),
{
    let ghost start = statements(out@);
    let ghost want = rows@.map_values(|r: LegacyThumbnail| thumbnail_statement(r));
    let mut i: usize = 0;
    assert(start + want.take(0) == start);
    while i < rows.len()
        invariant
            i <= rows@.len(),
            want == rows@.map_values(|r: LegacyThumbnail| thumbnail_statement(r)),
            statements(out@) == start + want.take(i as int),
        decreases rows@.len() - i,
    {
        let r: &LegacyThumbnail = &rows[i];
        let params: Vec<SqlValue> = vec![
            SqlValue::Text(r.hash.clone()),
            SqlValue::Integer(r.size),
            SqlValue::Blob(vstd::slice::slice_to_vec(r.blob.as_slice())),
        ];
        assert(values(params@) == thumbnail_statement(*r).params);
        push_statement(
            out,
            "INSERT INTO thumbnails (image_hash, size, thumbnail_data) VALUES (?1, ?2, ?3)",
            params,
        );
        assert(want.take(i + 1) == want.take(i as int) + seq![want[i as int]]);
        i = i + 1;
    }
    assert(want.take(i as int) == want);
}

fn push_metadata(out: &mut Vec<Statement>, rows: &Vec<MetadataRow>)
    ensures
        statements(final(out)@) == statements(old(out)@) + rows@.map_values(
            |r: MetadataRow| metadata_statement(r),
        ),
{
    let ghost start = statements(out@);
    let ghost want = rows@.map_values(|r: MetadataRow| metadata_statement(r));
    let mut i: usize = 0;
    assert(start + want.take(0) == start);
    while i < rows.len()
        invariant
            i <= rows@.len(),
            want == rows@.map_values(|r: MetadataRow| metadata_statement(r)),
            statements(out@) == start + want.take(i as int),
        decreases rows@.len() - i,
    {
        let r: &MetadataRow = &rows[i];
        let params: Vec<SqlValue> = vec![
            SqlValue::Integer(r.image_id),
            opt_i64(r.file_size),
            opt_i64(r.width),
            opt_i64(r.height),
            opt_f64(r.latitude_bits),
            opt_f64(r.longitude_bits),
            opt_text(&r.camera_make),
            opt_text(&r.camera_model),
            opt_text(&r.datetime_taken),
        ];
        assert(values(params@) == metadata_statement(*r).params);
        push_statement(
            out,
            "INSERT INTO image_metadata (image_id, file_size, width, height, latitude, longitude, camera_make, camera_model, datetime_taken) VALUES (?1, ?2, ?3, ?4, ?5, ?6, ?7, ?8, ?9)",
            params,
        );
        assert(want.take(i + 1) == want.take(i as int) + seq![want[i as int]]);
        i = i + 1;
    }
    assert(want.take(i as int) == want);
}

fn push_favorites(out: &mut Vec<Statement>, rows: &Vec<LegacyFavorite>)
    ensures
        statements(final(out)@) == statements(old(out)@) + rows@.map_values(
            |r: LegacyFavorite| favorite_statement(r),
        ),
{
    let ghost start = statements(out@);
    let ghost want = rows@.map_values(|r: LegacyFavorite| favorite_statement(r));
    let mut i: usize = 0;
    assert(start + want.take(0) == start);
    while i < rows.len()
        invariant
            i <= rows@.len(),
            want == rows@.map_values(|r: LegacyFavorite| favorite_statement(r)),
            statements(out@) == start + want.take(i as int),
        decreases rows@.len() - i,
    {
        let r: &LegacyFavorite = &rows[i];
        let params: Vec<SqlValue> = vec![SqlValue::Integer(r.image_id), opt_text(&r.created_at)];
        assert(values(params@) == favorite_statement(*r).params);
        push_statement(
            out,
            "INSERT INTO favorites (image_id, created_at) VALUES (?1, ?2)",
            params,
        );
        assert(want.take(i + 1) == want.take(i as int) + seq![want[i as int]]);
        i = i + 1;
    }
    assert(want.take(i as int) == want);
}

fn push_id_names(out: &mut Vec<Statement>, sql: &str, rows: &Vec<IdName>)
    ensures
        statements(final(out)@) == statements(old(out)@) + rows@.map_values(
            |r: IdName| id_name_statement(sql@, r),
        ),
{
    let ghost start = statements(out@);
    let ghost want = rows@.map_values(|r: IdName| id_name_statement(sql@, r));
    let mut i: usize = 0;
    assert(start + want.take(0) == start);
    while i < rows.len()
        invariant
            i <= rows@.len(),
            want == rows@.map_values(|r: IdName| id_name_statement(sql@, r)),
            statements(out@) == start + want.take(i as int),
        decreases rows@.len() - i,
    {
        let r: &IdName = &rows[i];
        let params: Vec<SqlValue> = vec![SqlValue::Integer(r.id), SqlValue::Text(r.name.clone())];
        assert(values(params@) == id_name_statement(sql@, *r).params);
        push_statement(out, sql, params);
        assert(want.take(i + 1) == want.take(i as int) + seq![want[i as int]]);
        i = i + 1;
    }
    assert(want.take(i as int) == want);
}

fn push_id_pairs(out: &mut Vec<Statement>, sql: &str, rows: &Vec<IdPair>)
    ensures
        statements(final(out)@) == statements(old(out)@) + rows@.map_values(
            |r: IdPair| id_pair_statement(sql@, r),
        ),
{
    let ghost start = statements(out@);
    let ghost want = rows@.map_values(|r: IdPair| id_pair_statement(sql@, r));
    let mut i: usize = 0;
    assert(start + want.take(0) == start);
    while i < rows.len()
        invariant
            i <= rows@.len(),
            want == rows@.map_values(|r: IdPair| id_pair_statement(sql@, r)),
            statements(out@) == start + want.take(i as int),
        decreases rows@.len() - i,
    {
        let r: IdPair = rows[i];
        let params: Vec<SqlValue> = vec![SqlValue::Integer(r.first), SqlValue::Integer(r.second)];
        assert(values(params@) == id_pair_statement(sql@, r).params);
        push_statement(out, sql, params);
        assert(want.take(i + 1) == want.take(i as int) + seq![want[i as int]]);
        i = i + 1;
    }
    assert(want.take(i as int) == want);
}

/// The statements that fill the new database from the legacy data, to be run
/// after its schema is in place.
pub fn write_turso(data: &LegacyData) -> (r: Result<Vec<Statement>, MigrateError>)
    ensures
        valid_tables(*data) ==> r is Ok,
        !valid_tables(*data) ==> r == Err::<Vec<Statement>, MigrateError>(
            MigrateError::InvalidTableName,
        ),
        r matches Ok(list) ==> statements(list@) == copy_statements(*data),
{
    let mut out: Vec<Statement> = Vec::new();
    assert(statements(out@) == Seq::<StatementModel>::empty());
    if !push_models(&mut out, &data.models) {
        return Err(MigrateError::InvalidTableName);
    }
    push_images(&mut out, &data.images);
    if !push_tables(&mut out, &data.embeddings) {
        return Err(MigrateError::InvalidTableName);
    }
    push_thumbnails(&mut out, &data.thumbnails);
    push_metadata(&mut out, &data.metadata);
    push_favorites(&mut out, &data.favorites);
    push_id_names(&mut out, "INSERT INTO tags (id, name) VALUES (?1, ?2)", &data.tags);
    push_id_pairs(
        &mut out,
        "INSERT INTO image_tags (image_id, tag_id) VALUES (?1, ?2)",
        &data.image_tags,
    );
    push_id_names(
        &mut out,
        "INSERT INTO collections (id, name) VALUES (?1, ?2)",
        &data.collections,
    );
    push_id_pairs(
        &mut out,
        "INSERT INTO collection_images (collection_id, image_id) VALUES (?1, ?2)",
        &data.collection_images,
    );
    if let Some(json) = &data.ui_state {
        let params: Vec<SqlValue> = vec![SqlValue::Text(json.clone())];
        assert(values(params@) == seq![SqlModel::Text(json@)]);
        push_statement(&mut out, "INSERT INTO ui_state (id, state_json) VALUES (1, ?1)", params);
    }
    assert(statements(out@) == copy_statements(*data));
    Ok(out)
}

proof fn tables_statements_contain(tables: Seq<EmbeddingTable>, n: nat, t: int, k: int)
    requires
        0 <= t < n <= tables.len(),
        0 <= k < tables[t].rows@.len(),
    ensures
        tables_statements(tables, n).contains(
            embedding_statement(tables[t].table@, tables[t].rows@[k]),
        ),
    decreases n,
{
    let s = embedding_statement(tables[t].table@, tables[t].rows@[k]);
    let before = tables_statements(tables, (n - 1) as nat);
    let own = table_statements(tables[n - 1]);
    if t == n - 1 {
        assert(own[k] == s);
        assert((before + own)[before.len() + k] == s);
    } else {
        tables_statements_contain(tables, (n - 1) as nat, t, k);
        let i = choose|i: int| 0 <= i < before.len() && before[i] == s;
        assert((before + own)[i] == s);
    }
}

/// The migration loses nothing: every image is written under its own id, and
/// every embedding under the id of its image, byte for byte.
pub proof fn images_and_embeddings_survive(d: LegacyData, i: int, t: int, k: int)
    requires
        0 <= i < d.images@.len(),
        0 <= t < d.embeddings@.len(),
        0 <= k < d.embeddings@[t].rows@.len(),
    ensures
        copy_statements(d).contains(image_statement(d.images@[i])),
        copy_statements(d).contains(
            embedding_statement(d.embeddings@[t].table@, d.embeddings@[t].rows@[k]),
        ),
{
    let models = models_statements(d.models@, d.models@.len());
    let images = d.images@.map_values(|r: LegacyImage| image_statement(r));
    let tables = tables_statements(d.embeddings@, d.embeddings@.len());
    let rest = copy_statements(d).skip((models.len() + images.len() + tables.len()) as int);
    let all = copy_statements(d);
    assert(all == models + images + tables + rest);
    assert(all[models.len() + i] == image_statement(d.images@[i]));
    tables_statements_contain(d.embeddings@, d.embeddings@.len(), t, k);
    let s = embedding_statement(d.embeddings@[t].table@, d.embeddings@[t].rows@[k]);
    let j = choose|j: int| 0 <= j < tables.len() && tables[j] == s;
    assert(all[models.len() + images.len() + j] == s);
}

/// Is a file a legacy database that needs migrating?
///
/// True when the file exists, lacks the `schema_meta` marker of the new
/// schema, yet has the `images` table. A missing file (a brand-new DB about to
/// be created) or an already-migrated DB is not legacy.
pub fn is_legacy_db(file_exists: bool, has_schema_meta: bool, has_images: bool) -> (r: bool)
    ensures
        r == (file_exists && !has_schema_meta && has_images),
{
    file_exists && !has_schema_meta && has_images
}

/// The conventional backup path for a migrated canonical database.
pub fn backup_path(canonical_path: &str) -> (r: String)
    ensures
        r@ == with_extension_text(canonical_path@, "db.rusqlite.bak"@),
{
    with_extension(canonical_path, "db.rusqlite.bak")
}

/// Where the new database is built before it takes its place.
pub fn temp_path(canonical_path: &str) -> (r: String)
    ensures
        r@ == with_extension_text(canonical_path@, "db.turso.tmp"@),
{
    with_extension(canonical_path, "db.turso.tmp")
}

/// The sidecars of a database: its path with `-wal` and `-shm` appended.
pub fn sidecars(db_path: &str) -> (r: (String, String))
    ensures
        r.0@ == db_path@ + "-wal"@,
        r.1@ == db_path@ + "-shm"@,
{
    (db_path.to_owned().concat("-wal"), db_path.to_owned().concat("-shm"))
}

/// A step of a migration.
#[derive(Debug, Clone, Copy, PartialEq, Eq, Structural)]
pub enum MigrateStep {
    /// Is the canonical file in the new format already?
    CheckMigrated,
    /// Is there a canonical file?
    CheckPresent,
    /// Is there a backup already?
    CheckBackup,
    /// Is there a leftover temporary file?
    CheckTemp,
    /// Remove the leftover temporary file.
    RemoveTemp,
    /// Read the legacy database.
    Read,
    /// Write the new database as the temporary file.
    Write,
    /// Remove the temporary file's sidecars.
    CleanTemp,
    /// Rename the canonical file to the backup.
    BackUp,
    /// Remove the legacy database's sidecars.
    CleanLegacy,
    /// Rename the temporary file to the canonical one.
    Install,
    /// Rename the backup to the canonical file again, then give up.
    RollBack(MigrateError),
    /// The migration ended well: nothing had to be done.
    AlreadyDone,
    /// The migration ended well.
    Done,
    /// The migration was given up.
    Fail(MigrateError),
}

/// The step after `step`, given how that went: for a question, whether the
/// answer is yes; for a deed, whether it succeeded. The backup is made before
/// the new database is put into place, and from then on every failure puts it
/// back, so the canonical file is never lost.
pub open spec fn next_step(step: MigrateStep, ok: bool, force: bool) -> MigrateStep {
    match step {
        MigrateStep::CheckMigrated => if ok {
            MigrateStep::AlreadyDone
        } else {
            MigrateStep::CheckPresent
        },
        MigrateStep::CheckPresent => or_fail(ok, MigrateStep::CheckBackup, MigrateError::NoDatabase),
        MigrateStep::CheckBackup => or_fail(
            force || !ok,
            MigrateStep::CheckTemp,
            MigrateError::BackupExists,
        ),
        MigrateStep::CheckTemp => if ok {
            MigrateStep::RemoveTemp
        } else {
            MigrateStep::Read
        },
        MigrateStep::RemoveTemp => or_fail(ok, MigrateStep::Read, MigrateError::StaleTemp),
        MigrateStep::Read => or_fail(ok, MigrateStep::Write, MigrateError::ReadFailed),
        MigrateStep::Write => or_fail(ok, MigrateStep::CleanTemp, MigrateError::WriteFailed),
        MigrateStep::CleanTemp => or_fail(ok, MigrateStep::BackUp, MigrateError::TempSidecars),
        MigrateStep::BackUp => or_fail(ok, MigrateStep::CleanLegacy, MigrateError::BackupFailed),
        MigrateStep::CleanLegacy => if ok {
            MigrateStep::Install
        } else {
            MigrateStep::RollBack(MigrateError::LegacySidecars)
        },
        MigrateStep::Install => if ok {
            MigrateStep::Done
        } else {
            MigrateStep::RollBack(MigrateError::InstallFailed)
        },
        MigrateStep::RollBack(e) => MigrateStep::Fail(e),
        MigrateStep::AlreadyDone => MigrateStep::AlreadyDone,
        MigrateStep::Done => MigrateStep::Done,
        MigrateStep::Fail(e) => MigrateStep::Fail(e),
    }
}

/// The next step, or the end with an error.
pub open spec fn or_fail(ok: bool, next: MigrateStep, error: MigrateError) -> MigrateStep {
    if ok {
        next
    } else {
        MigrateStep::Fail(error)
    }
}

fn or_fail_step(ok: bool, next: MigrateStep, error: MigrateError) -> (r: MigrateStep)
    ensures
        r == or_fail(ok, next, error),
{
    if ok {
        next
    } else {
        MigrateStep::Fail(error)
    }
}

/// Decides about the next step of a migration.
pub fn migrate_db(step: MigrateStep, ok: bool, force: bool) -> (r: MigrateStep)
    ensures
        r == next_step(step, ok, force),
{
    match step {
        MigrateStep::CheckMigrated => {
            if ok {
                MigrateStep::AlreadyDone
            } else {
                MigrateStep::CheckPresent
            }
        },
        MigrateStep::CheckPresent => or_fail_step(
            ok,
            MigrateStep::CheckBackup,
            MigrateError::NoDatabase,
        ),
        MigrateStep::CheckBackup => or_fail_step(
            force || !ok,
            MigrateStep::CheckTemp,
            MigrateError::BackupExists,
        ),
        MigrateStep::CheckTemp => {
            if ok {
                MigrateStep::RemoveTemp
            } else {
                MigrateStep::Read
            }
        },
        MigrateStep::RemoveTemp => or_fail_step(ok, MigrateStep::Read, MigrateError::StaleTemp),
        MigrateStep::Read => or_fail_step(ok, MigrateStep::Write, MigrateError::ReadFailed),
        MigrateStep::Write => or_fail_step(ok, MigrateStep::CleanTemp, MigrateError::WriteFailed),
        MigrateStep::CleanTemp => or_fail_step(ok, MigrateStep::BackUp, MigrateError::TempSidecars),
        MigrateStep::BackUp => or_fail_step(
            ok,
            MigrateStep::CleanLegacy,
            MigrateError::BackupFailed,
        ),
        MigrateStep::CleanLegacy => {
            if ok {
                MigrateStep::Install
            } else {
                MigrateStep::RollBack(MigrateError::LegacySidecars)
            }
        },
        MigrateStep::Install => {
            if ok {
                MigrateStep::Done
            } else {
                MigrateStep::RollBack(MigrateError::InstallFailed)
            }
        },
        MigrateStep::RollBack(e) => MigrateStep::Fail(e),
        MigrateStep::AlreadyDone => MigrateStep::AlreadyDone,
        MigrateStep::Done => MigrateStep::Done,
        MigrateStep::Fail(e) => MigrateStep::Fail(e),
    }
}

/// The outcome of a migration that has ended well.
pub fn outcome(step: MigrateStep, counts: (usize, usize, usize)) -> (r: Option<MigrateOutcome>)
    ensures
        r == match step {
            MigrateStep::AlreadyDone => Some(MigrateOutcome::AlreadyMigrated),
            MigrateStep::Done => Some(
                MigrateOutcome::Migrated {
                    images: counts.0,
                    embeddings: counts.1,
                    thumbnails: counts.2,
                },
            ),
            _ => None,
        },
{
    match step {
        MigrateStep::AlreadyDone => Some(MigrateOutcome::AlreadyMigrated),
        MigrateStep::Done => Some(
            MigrateOutcome::Migrated {
                images: counts.0,
                embeddings: counts.1,
                thumbnails: counts.2,
            },
        ),
        _ => None,
    }
}

/// Which database a file holds.
pub enum Held {
    Nothing,
    Legacy,
    New,
    Other,
}

/// The three files of a migration.
pub struct Files {
    pub canonical: Held,
    pub temp: Held,
    pub backup: Held,
}

/// What a successful step does to the files.
pub open spec fn after_step(f: Files, step: MigrateStep) -> Files {
    match step {
        MigrateStep::RemoveTemp => Files { temp: Held::Nothing, ..f },
        MigrateStep::Write => Files { temp: Held::New, ..f },
        MigrateStep::BackUp => Files { canonical: Held::Nothing, backup: f.canonical, ..f },
        MigrateStep::Install => Files { canonical: f.temp, temp: Held::Nothing, ..f },
        MigrateStep::RollBack(_) => Files { canonical: f.backup, backup: Held::Nothing, ..f },
        _ => f,
    }
}

/// What is known of the files when a step begins, in the migration of a
/// legacy database.
pub open spec fn files_at(f: Files, step: MigrateStep) -> bool {
    match step {
        MigrateStep::BackUp => f.canonical == Held::Legacy && f.temp == Held::New,
        MigrateStep::CleanTemp => f.canonical == Held::Legacy && f.temp == Held::New,
        MigrateStep::CleanLegacy | MigrateStep::Install => f.canonical == Held::Nothing && f.backup
            == Held::Legacy && f.temp == Held::New,
        MigrateStep::RollBack(_) => f.backup == Held::Legacy,
        MigrateStep::Done => f.canonical == Held::New && f.backup == Held::Legacy,
        _ => f.canonical == Held::Legacy,
    }
}

/// The canonical file is never lost. From its first step on, a migration of a
/// legacy database keeps the legacy data in the canonical file or in the
/// backup; where it ends well, the new database has taken the canonical place
/// and the backup holds the legacy one; and where it is given up, the
/// canonical file holds the legacy database as before. (Putting the backup
/// back is taken to succeed; where even that fails, the backup is left.)
pub proof fn the_canonical_file_is_never_lost(f: Files, step: MigrateStep, ok: bool, force: bool)
    requires
        files_at(f, step),
        step is RollBack ==> ok,
    ensures
        ({
            let g = if ok {
                after_step(f, step)
            } else {
                f
            };
            let next = next_step(step, ok, force);
            &&& files_at(g, next)
            &&& g.canonical == Held::Legacy || g.backup == Held::Legacy
            &&& next is Fail && !(step is Fail) ==> g.canonical == Held::Legacy
        }),
{
}

/// A backup is never overwritten unless that was asked for.
pub proof fn backups_are_kept(ok: bool)
    ensures
        next_step(MigrateStep::CheckBackup, true, false) == MigrateStep::Fail(
            MigrateError::BackupExists,
        ),
        next_step(MigrateStep::CheckBackup, ok, true) == MigrateStep::CheckTemp,
        next_step(MigrateStep::CheckMigrated, true, ok) == MigrateStep::AlreadyDone,
{
}

proof fn tables_statements_count(tables: Seq<EmbeddingTable>, n: nat)
    requires
        n <= tables.len(),
    ensures
        tables_statements(tables, n).len() == embedding_total(tables.take(n as int)),
    decreases n,
{
    if n == 0 {
        assert(tables.take(0) == Seq::<EmbeddingTable>::empty());
    } else {
        tables_statements_count(tables, (n - 1) as nat);
        assert(tables.take(n as int).drop_last() == tables.take(n - 1));
        assert(tables.take(n as int).last() == tables[n - 1]);
    }
}

proof fn models_statements_contain(models: Seq<LegacyModel>, n: nat, i: int)
    requires
        0 <= i < n <= models.len(),
    ensures
        models_statements(models, n).contains(model_statements(models[i]).last()),
        models_statements(models, n)[0] == plain("DELETE FROM models"@),
        models[i].table_name@ != "image_vectors"@ ==> models_statements(models, n).contains(
            plain(vector_table_sql(models[i].table_name@, models[i].dim.0 as nat)),
        ),
    decreases n,
{
    let before = models_statements(models, (n - 1) as nat);
    let more = model_statements(models[n - 1]);
    let all = before + more;
    models_statements_start(models, (n - 1) as nat);
    if i == n - 1 {
        assert(all[before.len() + more.len() - 1] == more.last());
        if models[i].table_name@ != "image_vectors"@ {
            assert(all[before.len() as int] == more[0]);
        }
    } else {
        models_statements_contain(models, (n - 1) as nat, i);
        let s = model_statements(models[i]).last();
        let j = choose|j: int| 0 <= j < before.len() && before[j] == s;
        assert(all[j] == s);
        if models[i].table_name@ != "image_vectors"@ {
            let t = plain(vector_table_sql(models[i].table_name@, models[i].dim.0 as nat));
            let k = choose|k: int| 0 <= k < before.len() && before[k] == t;
            assert(all[k] == t);
        }
    }
}

proof fn models_statements_start(models: Seq<LegacyModel>, n: nat)
    requires
        n <= models.len(),
    ensures
        models_statements(models, n).len() > 0,
        models_statements(models, n)[0] == plain("DELETE FROM models"@),
    decreases n,
{
    if n > 0 {
        models_statements_start(models, (n - 1) as nat);
    }
}

/// Every model of the legacy database is registered in the new one, with its
/// name, its dimension, its table and whether it is the active one; the table
/// is created unless every new database has it; and what a new database
/// registers by itself is dropped first.
pub proof fn every_model_is_carried_over(d: LegacyData, i: int)
    requires
        0 <= i < d.models@.len(),
    ensures
        copy_statements(d)[0] == plain("DELETE FROM models"@),
        copy_statements(d).contains(
            StatementModel {
                sql: "INSERT INTO models (name, dim, table_name, is_active) VALUES (?1, ?2, ?3, ?4)"@,
                params: seq![
                    SqlModel::Text(d.models@[i].name@),
                    SqlModel::Integer((d.models@[i].dim.0 as i64) as int),
                    SqlModel::Text(d.models@[i].table_name@),
                    SqlModel::Integer(
                        if d.models@[i].is_active {
                            1
                        } else {
                            0
                        },
                    ),
                ],
            },
        ),
        d.models@[i].table_name@ != "image_vectors"@ ==> copy_statements(d).contains(
            plain(vector_table_sql(d.models@[i].table_name@, d.models@[i].dim.0 as nat)),
        ),
{
    let models = models_statements(d.models@, d.models@.len());
    let all = copy_statements(d);
    models_statements_contain(d.models@, d.models@.len(), i);
    let rest = all.skip(models.len() as int);
    assert(all == models + rest);
    let s = model_statements(d.models@[i]).last();
    let j = choose|j: int| 0 <= j < models.len() && models[j] == s;
    assert(all[j] == s);
    if d.models@[i].table_name@ != "image_vectors"@ {
        let t = plain(vector_table_sql(d.models@[i].table_name@, d.models@[i].dim.0 as nat));
        let k = choose|k: int| 0 <= k < models.len() && models[k] == t;
        assert(all[k] == t);
    }
}

/// Nothing of the legacy database is left behind: behind the models, every
/// image is written under its own id, then every embedding, then every
/// thumbnail, every row of metadata, every favorite, every tag, every tagged
/// image, every collection, every image in a collection, and last the state
/// of the user interface where there is one. Each row holds the values that
/// it had, so that rows come after those that they refer to, and nothing
/// besides is written.
pub proof fn nothing_is_left_behind(d: LegacyData)
    ensures
        ({
            let all = copy_statements(d);
            let images = models_statements(d.models@, d.models@.len()).len() as int;
            let embeddings = images + d.images@.len();
            let thumbnails = embeddings + embedding_total(d.embeddings@);
            let metadata = thumbnails + d.thumbnails@.len();
            let favorites = metadata + d.metadata@.len();
            let tags = favorites + d.favorites@.len();
            let image_tags = tags + d.tags@.len();
            let collections = image_tags + d.image_tags@.len();
            let collection_images = collections + d.collections@.len();
            let ui_state = collection_images + d.collection_images@.len();
            &&& all.len() == ui_state + (if d.ui_state is Some {
                1int
            } else {
                0int
            })
            &&& forall|i: int|
                0 <= i < d.images@.len() ==> #[trigger] all[images + i] == (StatementModel {
                    sql: "INSERT INTO images (id, path, hash, created_at) VALUES (?1, ?2, ?3, ?4)"@,
                    params: seq![
                        SqlModel::Integer(d.images@[i].id as int),
                        SqlModel::Text(d.images@[i].path@),
                        SqlModel::Text(d.images@[i].hash@),
                        opt_text_model(text_of(d.images@[i].created_at)),
                    ],
                })
            &&& forall|i: int|
                0 <= i < d.thumbnails@.len() ==> #[trigger] all[thumbnails + i] == (StatementModel {
                    sql: "INSERT INTO thumbnails (image_hash, size, thumbnail_data) VALUES (?1, ?2, ?3)"@,
                    params: seq![
                        SqlModel::Text(d.thumbnails@[i].hash@),
                        SqlModel::Integer(d.thumbnails@[i].size as int),
                        SqlModel::Blob(d.thumbnails@[i].blob@),
                    ],
                })
            &&& forall|i: int|
                0 <= i < d.metadata@.len() ==> #[trigger] all[metadata + i] == (StatementModel {
                    sql: "INSERT INTO image_metadata (image_id, file_size, width, height, latitude, longitude, camera_make, camera_model, datetime_taken) VALUES (?1, ?2, ?3, ?4, ?5, ?6, ?7, ?8, ?9)"@,
                    params: seq![
                        SqlModel::Integer(d.metadata@[i].image_id as int),
                        opt_int_model(d.metadata@[i].file_size),
                        opt_int_model(d.metadata@[i].width),
                        opt_int_model(d.metadata@[i].height),
                        opt_real_model(d.metadata@[i].latitude_bits),
                        opt_real_model(d.metadata@[i].longitude_bits),
                        opt_text_model(text_of(d.metadata@[i].camera_make)),
                        opt_text_model(text_of(d.metadata@[i].camera_model)),
                        opt_text_model(text_of(d.metadata@[i].datetime_taken)),
                    ],
                })
            &&& forall|i: int|
                0 <= i < d.favorites@.len() ==> #[trigger] all[favorites + i] == (StatementModel {
                    sql: "INSERT INTO favorites (image_id, created_at) VALUES (?1, ?2)"@,
                    params: seq![
                        SqlModel::Integer(d.favorites@[i].image_id as int),
                        opt_text_model(text_of(d.favorites@[i].created_at)),
                    ],
                })
            &&& forall|i: int|
                0 <= i < d.tags@.len() ==> #[trigger] all[tags + i] == (StatementModel {
                    sql: "INSERT INTO tags (id, name) VALUES (?1, ?2)"@,
                    params: seq![
                        SqlModel::Integer(d.tags@[i].id as int),
                        SqlModel::Text(d.tags@[i].name@),
                    ],
                })
            &&& forall|i: int|
                0 <= i < d.image_tags@.len() ==> #[trigger] all[image_tags + i] == (StatementModel {
                    sql: "INSERT INTO image_tags (image_id, tag_id) VALUES (?1, ?2)"@,
                    params: seq![
                        SqlModel::Integer(d.image_tags@[i].first as int),
                        SqlModel::Integer(d.image_tags@[i].second as int),
                    ],
                })
            &&& forall|i: int|
                0 <= i < d.collections@.len() ==> #[trigger] all[collections + i] == (StatementModel {
                    sql: "INSERT INTO collections (id, name) VALUES (?1, ?2)"@,
                    params: seq![
                        SqlModel::Integer(d.collections@[i].id as int),
                        SqlModel::Text(d.collections@[i].name@),
                    ],
                })
            &&& forall|i: int|
                0 <= i < d.collection_images@.len() ==> #[trigger] all[collection_images + i] == (StatementModel {
                    sql: "INSERT INTO collection_images (collection_id, image_id) VALUES (?1, ?2)"@,
                    params: seq![
                        SqlModel::Integer(d.collection_images@[i].first as int),
                        SqlModel::Integer(d.collection_images@[i].second as int),
                    ],
                })
            &&& d.ui_state matches Some(json) ==> all[ui_state] == (StatementModel {
                sql: "INSERT INTO ui_state (id, state_json) VALUES (1, ?1)"@,
                params: seq![SqlModel::Text(json@)],
            })
        }),
{
    tables_statements_count(d.embeddings@, d.embeddings@.len());
    assert(d.embeddings@.take(d.embeddings@.len() as int) == d.embeddings@);
}

/// An embedding is carried over byte for byte, into the table it was in and
/// for the image it belongs to.
pub proof fn embeddings_are_copied_byte_for_byte(t: EmbeddingTable, k: int)
    requires
        0 <= k < t.rows@.len(),
    ensures
        table_statements(t).len() == t.rows@.len(),
        table_statements(t)[k].sql == "INSERT INTO "@ + t.table@
            + " (image_id, embedding) VALUES (?1, ?2)"@,
        table_statements(t)[k].params == seq![
            SqlModel::Integer(t.rows@[k].image_id as int),
            SqlModel::Blob(t.rows@[k].blob@),
        ],
{
}

/// How many steps a migration has left at most.
pub open spec fn steps_left(step: MigrateStep) -> nat {
    match step {
        MigrateStep::CheckMigrated => 12,
        MigrateStep::CheckPresent => 11,
        MigrateStep::CheckBackup => 10,
        MigrateStep::CheckTemp => 9,
        MigrateStep::RemoveTemp => 8,
        MigrateStep::Read => 7,
        MigrateStep::Write => 6,
        MigrateStep::CleanTemp => 5,
        MigrateStep::BackUp => 4,
        MigrateStep::CleanLegacy => 3,
        MigrateStep::Install => 2,
        MigrateStep::RollBack(_) => 1,
        _ => 0,
    }
}

/// Every migration ends, whatever goes well or wrong; where every deed
/// succeeds and nothing stands in the way it ends well, and it ends well in
/// no other way than through writing, backing up and installing.
pub proof fn migrations_end(step: MigrateStep, ok: bool, force: bool)
    ensures
        steps_left(step) > 0 ==> steps_left(next_step(step, ok, force)) < steps_left(step),
        steps_left(step) == 0 ==> next_step(step, ok, force) == step,
        next_step(step, ok, force) == MigrateStep::Done ==> ok && step == MigrateStep::Install
            || step == MigrateStep::Done,
        next_step(step, ok, force) == MigrateStep::Install ==> ok && step
            == MigrateStep::CleanLegacy,
        next_step(step, ok, force) == MigrateStep::CleanLegacy ==> ok && step
            == MigrateStep::BackUp,
        next_step(step, ok, force) == MigrateStep::BackUp ==> ok && step == MigrateStep::CleanTemp,
        next_step(step, ok, force) == MigrateStep::CleanTemp ==> ok && step == MigrateStep::Write,
        next_step(step, ok, force) == MigrateStep::Write ==> ok && step == MigrateStep::Read,
{
}

} // verus!
