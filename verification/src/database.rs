//! What the database is asked, and what is made of its answers. Statements
//! are built here with their bound values; running them is up to the caller.

use vstd::prelude::*;
use vstd::string::*;
use crate::filters::{
    build_filter_clause_turso, copies, filter_params, filter_sql, push_value, repeat_text, Filters,
};
use crate::ids::ImageId;
use crate::path_model::{parts, path_after, within};
use crate::paths::{
    find_last_dot, last_dot, last_dot_is, no_dot_at_all, AbsolutePath, RelativePath,
};
use crate::sort::{order_by_clause, order_by_text, RowMeta, Sort};
use crate::sql::{values, SqlModel, SqlValue};
use crate::text::{
    ascii_alnum, chars_of, is_ascii_alnum, join_all, joined, string_of, texts, to_lowercase,
    unicode_lowered,
};
use crate::units::{EmbeddingDim, FileSize, MaxK, ThumbnailSize};
use crate::vector_sql::{knn_query, knn_query_with, knn_sql, knn_sql_with};

verus! {

/// A statement with its bound values, in the order of its placeholders.
#[derive(Debug, PartialEq)]
pub struct Statement {
    pub sql: String,
    pub params: Vec<SqlValue>,
}

/// A statement as plain data.
pub struct StatementModel {
    pub sql: Seq<char>,
    pub params: Seq<SqlModel>,
}

impl View for Statement {
    type V = StatementModel;

    open spec fn view(&self) -> StatementModel {
        StatementModel { sql: self.sql@, params: values(self.params@) }
    }
}

/// Statements as plain data.
pub open spec fn statements(list: Seq<Statement>) -> Seq<StatementModel> {
    list.map_values(|s: Statement| s@)
}

/// Whether a statement has this text and these bound values.
pub open spec fn is_statement(s: Statement, sql: Seq<char>, params: Seq<SqlModel>) -> bool {
    s.sql@ == sql && values(s.params@) == params
}

/// Why a request was refused before it reached the database, or why an answer
/// was.
#[derive(Debug, Clone, Copy, PartialEq, Eq, Structural)]
pub enum DbError {
    /// A vector table name that is no plain identifier.
    InvalidTableName,
    /// A row limit beyond what the database counts with.
    LimitTooLarge,
    /// A path outside the library.
    OutsideLibrary,
    /// No image is indexed at the path.
    NotIndexed,
    /// No such model is registered.
    UnknownModel,
    /// There is no row where there has to be one.
    MissingRow,
    /// A column holds another type of value than it has to.
    UnexpectedValue,
}

/// A library's database: where the library is.
#[derive(Debug, Clone)]
pub struct Database {
    /// The directory that stored paths are relative to.
    pub parent_dir: String,
}

/// Metadata for an embedding model registered in the `models` table: its name,
/// embedding dimensionality, and the vector table holding its vectors.
#[derive(Debug, Clone)]
pub struct ModelInfo {
    pub name: String,
    pub dim: EmbeddingDim,
    pub table: String,
}

/// Letters, digits and underscores only: safe to interpolate into SQL.
pub open spec fn plain_identifier(s: Seq<char>) -> bool {
    forall|i: int| 0 <= i < s.len() ==> is_ascii_alnum(#[trigger] s[i]) || s[i] == '_'
}

pub(crate) fn is_plain_identifier(s: &str) -> (r: bool)
    ensures
        r == plain_identifier(s@),
{
    let a: Vec<char> = chars_of(s);
    let mut i: usize = 0;
    while i < a.len()
        invariant
            i <= a@.len(),
            a@ == s@,
            forall|k: int| 0 <= k < i ==> is_ascii_alnum(#[trigger] a@[k]) || a@[k] == '_',
        decreases a@.len() - i,
    {
        if !(ascii_alnum(a[i]) || a[i] == '_') {
            assert(!(is_ascii_alnum(s@[i as int]) || s@[i as int] == '_'));
            return false;
        }
        i = i + 1;
    }
    true
}

/// `limit` held between 1 and the ceiling.
pub open spec fn held(limit: usize, max_k: MaxK) -> usize {
    if limit < 1 {
        1
    } else if limit > max_k.0 {
        max_k.0
    } else {
        limit
    }
}

/// The number of candidates that a filtered search ranks: enough for the
/// page, and never fewer than the ceiling.
pub open spec fn candidates(limit: usize, offset: usize, max_k: MaxK) -> int {
    let page = if offset + limit < 1 {
        1
    } else {
        offset + limit
    };
    if page < max_k.0 {
        max_k.0 as int
    } else {
        page
    }
}

/// `n` placeholders with commas between them.
pub open spec fn placeholders(n: nat) -> Seq<char> {
    joined(copies("?"@, n), ","@)
}

fn placeholder_list(n: usize) -> (r: String)
    ensures
        r@ == placeholders(n as nat),
{
    join_all(&repeat_text("?", n), ",")
}

/// The columns of a browse listing, up to its condition.
pub open spec fn browse_sql(columns: Seq<char>) -> Seq<char> {
    "SELECT "@ + columns
        + " FROM images i LEFT JOIN image_metadata m ON m.image_id = i.id WHERE "@
}

fn browse_head(columns: &str) -> (r: String)
    ensures
        r@ == browse_sql(columns@),
{
    "SELECT ".to_owned().concat(columns).concat(
        " FROM images i LEFT JOIN image_metadata m ON m.image_id = i.id WHERE ",
    )
}

/// The whole numbers of four bytes that a blob holds: the part of it that is
/// read as an embedding.
pub open spec fn embedding_bytes(blob: Seq<u8>) -> Seq<u8> {
    blob.take(blob.len() - blob.len() % 4)
}

/// The text behind the last dot, where there is one.
pub open spec fn after_last_dot(path: Seq<char>) -> Option<Seq<char>> {
    if last_dot(path) >= 0 {
        Some(path.skip(last_dot(path) + 1))
    } else {
        None
    }
}

pub(crate) fn behind_last_dot(path: &str) -> (r: Option<String>)
    ensures
        r is Some <==> after_last_dot(path@) is Some,
        r matches Some(t) ==> after_last_dot(path@) == Some(t@),
{
    let a: Vec<char> = chars_of(path);
    assert(a@.subrange(0, a@.len() as int) == a@);
    match find_last_dot(&a, 0, a.len()) {
        Some(d) => {
            assert(a@.skip(d + 1) == a@.subrange(d + 1, a@.len() as int));
            Some(string_of(&a, d + 1, a.len()))
        },
        None => None,
    }
}

/// The lowercased extension that a listing shows for a path; empty when there
/// is no dot.
pub open spec fn shown_ext(path: Seq<char>) -> Seq<char> {
    match after_last_dot(path) {
        Some(e) => unicode_lowered(e),
        None => Seq::empty(),
    }
}

/// The lowercased extension of a path, for listings.
pub fn ext_of_path(path: &str) -> (r: String)
    ensures
        r@ == shown_ext(path@),
{
    match behind_last_dot(path) {
        Some(e) => to_lowercase(e.as_str()),
        None => String::new(),
    }
}

/// A listed image as plain data.
pub struct RowModel {
    pub id: ImageId,
    pub path: Seq<char>,
    pub size: Option<FileSize>,
    pub ext: Seq<char>,
}

impl View for RowMeta {
    type V = RowModel;

    open spec fn view(&self) -> RowModel {
        RowModel { id: self.id, path: self.path@, size: self.size, ext: self.ext@ }
    }
}

/// Build a [`RowMeta`] from an `(id, path, file_size)` row, deriving the
/// lowercased extension.
pub fn row_meta(id: i64, path: String, file_size: Option<i64>) -> (r: RowMeta)
    ensures
        r@ == (RowModel {
            id: ImageId(id),
            path: path@,
            size: match file_size {
                Some(n) => Some(FileSize(n)),
                None => None,
            },
            ext: shown_ext(path@),
        }),
{
    let ext: String = ext_of_path(path.as_str());
    RowMeta {
        id: ImageId(id),
        path,
        size: match file_size {
            Some(n) => Some(FileSize(n)),
            None => None,
        },
        ext,
    }
}

/// What the toggle of a favorite does to its row.
pub open spec fn favorite_sql(now_favorite: bool) -> Seq<char> {
    if now_favorite {
        "INSERT INTO favorites (image_id) VALUES (?1)"@
    } else {
        "DELETE FROM favorites WHERE image_id = ?1"@
    }
}

/// The text of [`Database::get_images_without_thumbnails`].
pub open spec fn missing_thumbnails_sql() -> Seq<char> {
    "SELECT i.path, i.hash FROM images i LEFT JOIN thumbnails t ON i.hash = t.image_hash AND t.size = ?1 WHERE t.id IS NULL AND NOT EXISTS (SELECT 1 FROM thumbnail_failures f WHERE f.image_hash = i.hash AND f.size = ?1) LIMIT ?2"@
}

/// The text of [`Database::count_images_without_thumbnails`].
pub open spec fn count_missing_thumbnails_sql() -> Seq<char> {
    "SELECT COUNT(*) FROM images i LEFT JOIN thumbnails t ON i.hash = t.image_hash AND t.size = ?1 WHERE t.id IS NULL AND NOT EXISTS (SELECT 1 FROM thumbnail_failures f WHERE f.image_hash = i.hash AND f.size = ?1)"@
}

impl Database {
    /// The vector table's name, validated as a safe SQL identifier before it is
    /// interpolated into queries.
    pub fn vectors_table(table: &str) -> (r: Result<String, DbError>)
        ensures
            plain_identifier(table@) ==> (r matches Ok(t) && t@ == table@),
            !plain_identifier(table@) ==> r == Err::<String, DbError>(DbError::InvalidTableName),
    {
        if is_plain_identifier(table) {
            Ok(table.to_owned())
        } else {
            Err(DbError::InvalidTableName)
        }
    }

    /// The stored form of an absolute path within this library.
    pub fn stored_path(&self, path: &AbsolutePath) -> (r: Result<RelativePath, DbError>)
        ensures
            within(path.0@, self.parent_dir@) ==> r is Ok,
            !within(path.0@, self.parent_dir@) ==> r == Err::<RelativePath, DbError>(
                DbError::OutsideLibrary,
            ),
            r matches Ok(rel) ==> rel.0@ == path_after(
                path.0@,
                parts(self.parent_dir@).len() as int,
            ),
    {
        match path.to_relative(self.parent_dir.as_str()) {
            Ok(rel) => Ok(rel),
            Err(_) => Err(DbError::OutsideLibrary),
        }
    }

    /// Drops the embedding of image `?1`.
    pub fn delete_vector_sql(vt: &str) -> (r: String)
        ensures
            r@ == "DELETE FROM "@ + vt@ + " WHERE image_id = ?1"@,
    {
        "DELETE FROM ".to_owned().concat(vt).concat(" WHERE image_id = ?1")
    }

    /// Stores embedding `?2` for image `?1`.
    pub fn insert_vector_sql(vt: &str) -> (r: String)
        ensures
            r@ == "INSERT INTO "@ + vt@ + " (image_id, embedding) VALUES (?1, ?2)"@,
    {
        "INSERT INTO ".to_owned().concat(vt).concat(" (image_id, embedding) VALUES (?1, ?2)")
    }

    /// Whether `path`/`hash` is indexed **for the active model**, as a count.
    ///
    /// Model-aware: an image counts as indexed only if it is present in the
    /// shared `images` table *and* has an embedding row in the active model's
    /// vector table.
    pub fn is_image_indexed(&self, vt: &str, path: &AbsolutePath, hash: &str) -> (r: Result<
        Statement,
        DbError,
    >)
        ensures
            within(path.0@, self.parent_dir@) ==> r is Ok,
            !within(path.0@, self.parent_dir@) ==> r == Err::<Statement, DbError>(
                DbError::OutsideLibrary,
            ),
            r matches Ok(s) ==> is_statement(
                s,
                "SELECT COUNT(*) FROM images i WHERE i.path = ?1 AND i.hash = ?2 AND EXISTS (SELECT 1 FROM "@
                    + vt@ + " WHERE image_id = i.id)"@,
                seq![
                    SqlModel::Text(path_after(path.0@, parts(self.parent_dir@).len() as int)),
                    SqlModel::Text(hash@),
                ],
            ),
    {
        let rel: RelativePath = match self.stored_path(path) {
            Ok(rel) => rel,
            Err(e) => {
                return Err(e);
            },
        };
        let sql: String =
            "SELECT COUNT(*) FROM images i WHERE i.path = ?1 AND i.hash = ?2 AND EXISTS (SELECT 1 FROM ".to_owned().concat(
        vt).concat(" WHERE image_id = i.id)");
        let params: Vec<SqlValue> = vec![SqlValue::Text(rel.0), SqlValue::Text(hash.to_owned())];
        assert(values(params@) == seq![SqlModel::Text(rel.0@), SqlModel::Text(hash@)]);
        Ok(Statement { sql, params })
    }

    /// The statement that flips the favorite flag of an image, and the new
    /// state (`true` = now favorited, `false` = now un-favorited).
    pub fn toggle_favorite(image_id: ImageId, is_favorite: bool) -> (r: (Statement, bool))
        ensures
            r.1 == !is_favorite,
            is_statement(r.0, favorite_sql(r.1), seq![SqlModel::Integer(image_id.0 as int)]),
    {
        let sql: String = if is_favorite {
            "DELETE FROM favorites WHERE image_id = ?1".to_owned()
        } else {
            "INSERT INTO favorites (image_id) VALUES (?1)".to_owned()
        };
        let params: Vec<SqlValue> = vec![SqlValue::Integer(image_id.get())];
        assert(values(params@) == seq![SqlModel::Integer(image_id.0 as int)]);
        (Statement { sql, params }, !is_favorite)
    }

    /// Resolve a list of relative paths to their `images.id` values in one
    /// `IN (...)` query. Paths absent from the DB are simply omitted.
    pub fn resolve_image_ids(rel_paths: &Vec<String>) -> (r: Statement)
        ensures
            is_statement(
                r,
                "SELECT id FROM images WHERE path IN ("@ + placeholders(rel_paths@.len()) + ")"@,
                texts(rel_paths@).map_values(|p: Seq<char>| SqlModel::Text(p)),
            ),
    {
        let sql: String = "SELECT id FROM images WHERE path IN (".to_owned().concat(
            placeholder_list(rel_paths.len()).as_str(),
        ).concat(")");
        let mut params: Vec<SqlValue> = Vec::new();
        let ghost want = texts(rel_paths@).map_values(|p: Seq<char>| SqlModel::Text(p));
        let mut i: usize = 0;
        assert(values(params@) == want.take(0));
        while i < rel_paths.len()
            invariant
                i <= rel_paths@.len(),
                want == texts(rel_paths@).map_values(|p: Seq<char>| SqlModel::Text(p)),
                values(params@) == want.take(i as int),
            decreases rel_paths@.len() - i,
        {
            push_value(&mut params, SqlValue::Text(rel_paths[i].clone()));
            assert(want.take(i + 1) == want.take(i as int) + seq![want[i as int]]);
            i = i + 1;
        }
        assert(want.take(i as int) == want);
        Statement { sql, params }
    }

    /// Search for similar images: rows of `(path, distance)`.
    pub fn search_similar_images(
        vt: &str,
        embedding: Vec<u8>,
        limit: usize,
        threshold: &str,
        max_k: MaxK,
    ) -> (r: Statement)
        requires
            max_k.0 >= 1,
        ensures
            is_statement(
                r,
                knn_sql(
                    vt@,
                    "path, distance"@,
                    ""@,
                    ""@,
                    held(limit, max_k) as nat,
                    0,
                    threshold@,
                ),
                seq![SqlModel::Blob(embedding@)],
            ),
    {
        let k: usize = hold(limit, max_k);
        let sql: String = knn_query(vt, "path, distance", "", "", k, 0, threshold);
        let params: Vec<SqlValue> = vec![SqlValue::Blob(embedding)];
        assert(values(params@) == seq![SqlModel::Blob(embedding@)]);
        Statement { sql, params }
    }

    /// Search for similar images with their 300 px thumbnails: rows of
    /// `(path, distance, thumbnail_data)`.
    pub fn search_similar_images_with_raw_blob(
        vt: &str,
        embedding: Vec<u8>,
        limit: usize,
        offset: usize,
        threshold: &str,
        max_k: MaxK,
    ) -> (r: Statement)
        requires
            max_k.0 >= 1,
        ensures
            is_statement(
                r,
                knn_sql_with(
                    vt@,
                    "path, distance, thumbnail_data"@,
                    ", t.thumbnail_data AS thumbnail_data"@,
                    "LEFT OUTER JOIN thumbnails t ON i.hash = t.image_hash AND t.size = 300"@,
                    ""@,
                    held(limit, max_k) as nat,
                    offset as nat,
                    threshold@,
                ),
                seq![SqlModel::Blob(embedding@)],
            ),
    {
        let k: usize = hold(limit, max_k);
        let sql: String = knn_query_with(
            vt,
            "path, distance, thumbnail_data",
            ", t.thumbnail_data AS thumbnail_data",
            "LEFT OUTER JOIN thumbnails t ON i.hash = t.image_hash AND t.size = 300",
            "",
            k,
            offset,
            threshold,
        );
        let params: Vec<SqlValue> = vec![SqlValue::Blob(embedding)];
        assert(values(params@) == seq![SqlModel::Blob(embedding@)]);
        Statement { sql, params }
    }

    /// Metadata-first search: rows of `(id, path, distance, file_size)` that
    /// pass `filters`, one page of them.
    pub fn search_similar_images_meta(
        vt: &str,
        embedding: Vec<u8>,
        limit: usize,
        offset: usize,
        threshold: &str,
        max_k: MaxK,
        filters: &Filters,
    ) -> (r: Statement)
        requires
            offset + limit <= usize::MAX,
        ensures
            is_statement(
                r,
                knn_sql(
                    vt@,
                    "id, path, distance, file_size"@,
                    ""@,
                    filter_sql(filters@),
                    if limit < candidates(limit, offset, max_k) {
                        limit as nat
                    } else {
                        candidates(limit, offset, max_k) as nat
                    },
                    offset as nat,
                    threshold@,
                ),
                seq![SqlModel::Blob(embedding@)] + filter_params(filters@),
            ),
    {
        // k must cover offset+limit AFTER filtering; max_k acts as a floor so a
        // full page survives post-scan filtering even on page 1.
        let mut k: usize = offset + limit;
        if k < 1 {
            k = 1;
        }
        if k < max_k.get() {
            k = max_k.get();
        }
        let page: usize = if limit < k { limit } else { k };
        let (clause, mut fparams) = build_filter_clause_turso(filters);
        let sql: String = knn_query(
            vt,
            "id, path, distance, file_size",
            "",
            clause.as_str(),
            page,
            offset,
            threshold,
        );
        let ghost more = values(fparams@);
        let mut params: Vec<SqlValue> = vec![SqlValue::Blob(embedding)];
        let ghost first = params@;
        let ghost rest = fparams@;
        params.append(&mut fparams);
        proof {
            assert(values(first) == seq![SqlModel::Blob(embedding@)]);
            assert(values(params@) == values(first) + values(rest));
        }
        Statement { sql, params }
    }

    /// Find images similar to an already-indexed one, from its STORED embedding
    /// (no re-embedding). Stored vectors are whole little-endian numbers of
    /// four bytes each; trailing bytes that make up none are not read.
    pub fn find_similar_to_path(
        vt: &str,
        stored: Vec<u8>,
        limit: usize,
        offset: usize,
        threshold: &str,
        max_k: MaxK,
        filters: &Filters,
    ) -> (r: Statement)
        requires
            offset + limit <= usize::MAX,
        ensures
            is_statement(
                r,
                knn_sql(
                    vt@,
                    "id, path, distance, file_size"@,
                    ""@,
                    filter_sql(filters@),
                    if limit < candidates(limit, offset, max_k) {
                        limit as nat
                    } else {
                        candidates(limit, offset, max_k) as nat
                    },
                    offset as nat,
                    threshold@,
                ),
                seq![SqlModel::Blob(embedding_bytes(stored@))] + filter_params(filters@),
            ),
    {
        let mut embedding: Vec<u8> = stored;
        let whole: usize = embedding.len() - embedding.len() % 4;
        embedding.truncate(whole);
        assert(embedding@ == embedding_bytes(stored@));
        Database::search_similar_images_meta(vt, embedding, limit, offset, threshold, max_k, filters)
    }

    /// Browse all indexed images matching `f` (no vector search), most-recent
    /// first: rows of `(path, file_size)`.
    ///
    /// Images without a metadata row still appear when filters are permissive,
    /// because the join is a LEFT JOIN.
    pub fn browse(f: &Filters, limit: usize, offset: usize) -> (r: Statement)
        ensures
            is_statement(
                r,
                browse_sql("i.path, m.file_size"@) + "1=1"@ + filter_sql(f@)
                    + " ORDER BY m.datetime_taken DESC, i.id DESC LIMIT ? OFFSET ?"@,
                filter_params(f@) + seq![
                    SqlModel::Integer((limit as i64) as int),
                    SqlModel::Integer((offset as i64) as int),
                ],
            ),
    {
        let (clause, mut params) = build_filter_clause_turso(f);
        let sql: String = browse_head("i.path, m.file_size").concat("1=1").concat(
            clause.as_str(),
        ).concat(" ORDER BY m.datetime_taken DESC, i.id DESC LIMIT ? OFFSET ?");
        let ghost before = values(params@);
        push_value(&mut params, SqlValue::Integer(limit as i64));
        push_value(&mut params, SqlValue::Integer(offset as i64));
        assert(values(params@) == before + seq![
            SqlModel::Integer((limit as i64) as int),
            SqlModel::Integer((offset as i64) as int),
        ]);
        Statement { sql, params }
    }

    /// Browse **all** matching images in the given sort order, with no
    /// LIMIT/OFFSET: rows of `(id, path, file_size)`.
    pub fn browse_all(f: &Filters, sort: &Sort) -> (r: Statement)
        ensures
            is_statement(
                r,
                browse_sql("i.id, i.path, m.file_size"@) + "1=1"@ + filter_sql(f@) + " ORDER BY "@
                    + order_by_text(*sort),
                filter_params(f@),
            ),
    {
        let (clause, params) = build_filter_clause_turso(f);
        let sql: String = browse_head("i.id, i.path, m.file_size").concat("1=1").concat(
            clause.as_str(),
        ).concat(" ORDER BY ").concat(order_by_clause(sort).as_str());
        Statement { sql, params }
    }

    /// The rows of an explicit list of ids, in no particular order.
    pub fn rows_by_id(ids: &Vec<ImageId>) -> (r: Statement)
        ensures
            is_statement(
                r,
                browse_sql("i.id, i.path, m.file_size"@) + "i.id IN ("@ + placeholders(ids@.len())
                    + ")"@,
                ids@.map_values(|id: ImageId| SqlModel::Integer(id.0 as int)),
            ),
    {
        let sql: String = browse_head("i.id, i.path, m.file_size").concat("i.id IN (").concat(
            placeholder_list(ids.len()).as_str(),
        ).concat(")");
        let mut params: Vec<SqlValue> = Vec::new();
        let ghost want = ids@.map_values(|id: ImageId| SqlModel::Integer(id.0 as int));
        let mut i: usize = 0;
        assert(values(params@) == want.take(0));
        while i < ids.len()
            invariant
                i <= ids@.len(),
                want == ids@.map_values(|id: ImageId| SqlModel::Integer(id.0 as int)),
                values(params@) == want.take(i as int),
            decreases ids@.len() - i,
        {
            push_value(&mut params, SqlValue::Integer(ids[i].get()));
            assert(want.take(i + 1) == want.take(i as int) + seq![want[i as int]]);
            i = i + 1;
        }
        assert(want.take(i as int) == want);
        Statement { sql, params }
    }

    /// Images that don't have thumbnails of a specific size: rows of
    /// `(path, hash)`. An image whose thumbnail of that size is marked as
    /// failed is not tried again.
    pub fn get_images_without_thumbnails(size: ThumbnailSize, limit: usize) -> (r: Result<
        Statement,
        DbError,
    >)
        ensures
            r matches Ok(s) ==> s.sql@ == missing_thumbnails_sql(),
            limit <= i64::MAX ==> r is Ok,
            limit > i64::MAX ==> r == Err::<Statement, DbError>(DbError::LimitTooLarge),
            r matches Ok(s) ==> is_statement(
                s,
                "SELECT i.path, i.hash FROM images i LEFT JOIN thumbnails t ON i.hash = t.image_hash AND t.size = ?1 WHERE t.id IS NULL AND NOT EXISTS (SELECT 1 FROM thumbnail_failures f WHERE f.image_hash = i.hash AND f.size = ?1) LIMIT ?2"@,
                seq![SqlModel::Integer(size.0 as int), SqlModel::Integer(limit as int)],
            ),
    {
        if limit as u64 > i64::MAX as u64 {
            return Err(DbError::LimitTooLarge);
        }
        let params: Vec<SqlValue> = vec![
            SqlValue::Integer(size.get() as i64),
            SqlValue::Integer(limit as i64),
        ];
        assert(values(params@) == seq![
            SqlModel::Integer(size.0 as int),
            SqlModel::Integer(limit as int),
        ]);
        Ok(
            Statement {
                sql: "SELECT i.path, i.hash FROM images i LEFT JOIN thumbnails t ON i.hash = t.image_hash AND t.size = ?1 WHERE t.id IS NULL AND NOT EXISTS (SELECT 1 FROM thumbnail_failures f WHERE f.image_hash = i.hash AND f.size = ?1) LIMIT ?2".to_owned(),
                params,
            },
        )
    }

    /// How many images don't have thumbnails of a specific size, those whose
    /// thumbnail is marked as failed left out.
    pub fn count_images_without_thumbnails(size: ThumbnailSize) -> (r: Statement)
        ensures
            r.sql@ == count_missing_thumbnails_sql(),
            is_statement(
                r,
                "SELECT COUNT(*) FROM images i LEFT JOIN thumbnails t ON i.hash = t.image_hash AND t.size = ?1 WHERE t.id IS NULL AND NOT EXISTS (SELECT 1 FROM thumbnail_failures f WHERE f.image_hash = i.hash AND f.size = ?1)"@,
                seq![SqlModel::Integer(size.0 as int)],
            ),
    {
        let params: Vec<SqlValue> = vec![SqlValue::Integer(size.get() as i64)];
        assert(values(params@) == seq![SqlModel::Integer(size.0 as int)]);
        Statement {
            sql: "SELECT COUNT(*) FROM images i LEFT JOIN thumbnails t ON i.hash = t.image_hash AND t.size = ?1 WHERE t.id IS NULL AND NOT EXISTS (SELECT 1 FROM thumbnail_failures f WHERE f.image_hash = i.hash AND f.size = ?1)".to_owned(),
            params,
        }
    }

    /// Images without metadata: rows of `(id, path, hash)`.
    pub fn get_images_without_metadata(limit: usize) -> (r: Result<Statement, DbError>)
        ensures
            limit <= i64::MAX ==> r is Ok,
            limit > i64::MAX ==> r == Err::<Statement, DbError>(DbError::LimitTooLarge),
            r matches Ok(s) ==> is_statement(
                s,
                "SELECT i.id, i.path, i.hash FROM images i LEFT JOIN image_metadata m ON i.id = m.image_id WHERE m.id IS NULL LIMIT ?1"@,
                seq![SqlModel::Integer(limit as int)],
            ),
    {
        if limit as u64 > i64::MAX as u64 {
            return Err(DbError::LimitTooLarge);
        }
        let params: Vec<SqlValue> = vec![SqlValue::Integer(limit as i64)];
        assert(values(params@) == seq![SqlModel::Integer(limit as int)]);
        Ok(
            Statement {
                sql: "SELECT i.id, i.path, i.hash FROM images i LEFT JOIN image_metadata m ON i.id = m.image_id WHERE m.id IS NULL LIMIT ?1".to_owned(),
                params,
            },
        )
    }

    /// `(min, max)` of the stored file sizes; 0 for what is missing.
    pub fn file_size_bounds(min: Option<i64>, max: Option<i64>) -> (r: (i64, i64))
        ensures
            r.0 == match min {
                Some(n) => n,
                None => 0,
            },
            r.1 == match max {
                Some(n) => n,
                None => 0,
            },
    {
        (
            match min {
                Some(n) => n,
                None => 0,
            },
            match max {
                Some(n) => n,
                None => 0,
            },
        )
    }
}

/// How many connections to keep, for a machine that can do `parallelism`
/// things at once (eight where that is unknown): at most 32.
pub fn pool_size(parallelism: Option<usize>) -> (r: usize)
    ensures
        r == match parallelism {
            Some(n) => if n < 32 {
                n
            } else {
                32
            },
            None => 8,
        },
{
    match parallelism {
        Some(n) => {
            if n < 32 {
                n
            } else {
                32
            }
        },
        None => 8,
    }
}

fn hold(limit: usize, max_k: MaxK) -> (r: usize)
    requires
        max_k.0 >= 1,
    ensures
        r == held(limit, max_k),
        1 <= r <= max_k.0,
{
    if limit < 1 {
        1
    } else if limit > max_k.get() {
        max_k.get()
    } else {
        limit
    }
}

/// A search brings as many rows as were asked for, but at least one and at
/// most the ceiling.
pub proof fn limits_are_held_to_the_ceiling(limit: usize, max_k: MaxK)
    requires
        max_k.0 >= 1,
    ensures
        1 <= held(limit, max_k) <= max_k.0,
        1 <= limit <= max_k.0 ==> held(limit, max_k) == limit,
        limit == 0 ==> held(limit, max_k) == 1,
        limit > max_k.0 ==> held(limit, max_k) == max_k.0,
{
}

/// A filtered search ranks enough candidates for the page that was asked
/// for, however far back it lies, and never fewer than the ceiling; so the
/// page is never cut short by the ranking.
pub proof fn candidates_cover_the_page(limit: usize, offset: usize, max_k: MaxK)
    ensures
        candidates(limit, offset, max_k) >= offset + limit,
        candidates(limit, offset, max_k) >= max_k.0,
        candidates(limit, offset, max_k) >= 1,
        candidates(limit, offset, max_k) == offset + limit || candidates(limit, offset, max_k)
            == max_k.0 || candidates(limit, offset, max_k) == 1,
        limit <= candidates(limit, offset, max_k),
{
}

/// A stored embedding is read from its beginning in whole numbers of four
/// bytes; at most three bytes at its end are left unread.
pub proof fn embeddings_are_whole_numbers(blob: Seq<u8>)
    ensures
        embedding_bytes(blob).is_prefix_of(blob),
        embedding_bytes(blob).len() % 4 == 0,
        blob.len() < embedding_bytes(blob).len() + 4,
        blob.len() % 4 == 0 ==> embedding_bytes(blob) == blob,
{
    if blob.len() % 4 == 0 {
        assert(embedding_bytes(blob) == blob);
    }
}

/// There is one placeholder for each value, with a comma between each two.
pub proof fn one_placeholder_each(n: nat)
    ensures
        placeholders(0) == Seq::<char>::empty(),
        n > 0 ==> placeholders(n).len() == 2 * n - 1,
        forall|i: int| 0 <= i < n ==> #[trigger] placeholders(n)[2 * i] == '?',
        forall|i: int| 1 <= i < n ==> #[trigger] placeholders(n)[2 * i - 1] == ',',
    decreases n,
{
    reveal_strlit("?");
    reveal_strlit(",");
    assert(placeholders(0) == Seq::<char>::empty());
    if n == 1 {
        assert(copies("?"@, 1)[0] == "?"@);
        assert(placeholders(1) == "?"@);
    } else if n > 1 {
        let m = (n - 1) as nat;
        one_placeholder_each(m);
        assert(copies("?"@, n).drop_last() == copies("?"@, m));
        assert(placeholders(n) == placeholders(m) + ","@ + "?"@);
        assert forall|i: int| 0 <= i < n implies #[trigger] placeholders(n)[2 * i] == '?' by {
            if i < m {
                assert(placeholders(n)[2 * i] == placeholders(m)[2 * i]);
            }
        }
        assert forall|i: int| 1 <= i < n implies #[trigger] placeholders(n)[2 * i - 1] == ',' by {
            if i < m {
                assert(placeholders(n)[2 * i - 1] == placeholders(m)[2 * i - 1]);
            }
        }
    }
}

/// A listing shows what stands behind the last dot of a path, in small
/// letters, and nothing for a path without a dot.
pub proof fn listings_show_the_extension(stem: Seq<char>, ext: Seq<char>)
    requires
        forall|i: int| 0 <= i < ext.len() ==> ext[i] != '.',
    ensures
        shown_ext(stem.push('.') + ext) == unicode_lowered(ext),
        shown_ext(ext) == Seq::<char>::empty(),
{
    last_dot_is(stem, ext);
    let path = stem.push('.') + ext;
    assert(path.skip(stem.len() as int + 1) == ext);
    no_dot_at_all(ext);
}

/// Toggling a favorite adds the row where there was none and drops it where
/// there was one; doing both leaves the image as it was.
pub proof fn toggling_a_favorite_flips_it(is_favorite: bool)
    ensures
        favorite_sql(!is_favorite) == if is_favorite {
            "DELETE FROM favorites WHERE image_id = ?1"@
        } else {
            "INSERT INTO favorites (image_id) VALUES (?1)"@
        },
        favorite_sql(true) != favorite_sql(false),
{
    reveal_strlit("INSERT INTO favorites (image_id) VALUES (?1)");
    reveal_strlit("DELETE FROM favorites WHERE image_id = ?1");
    assert(favorite_sql(true)[0] != favorite_sql(false)[0]);
}

/// A statement is its text and its bound values, and nothing else.
pub proof fn statements_are_text_and_values(s: Statement, sql: Seq<char>, params: Seq<SqlModel>)
    ensures
        is_statement(s, sql, params) <==> s@ == (StatementModel { sql, params }),
        is_statement(s, sql, params) ==> s.params@.len() == params.len() && forall|i: int|
            0 <= i < params.len() ==> (#[trigger] s.params@[i])@ == params[i],
{
    if is_statement(s, sql, params) {
        assert forall|i: int| 0 <= i < params.len() implies (#[trigger] s.params@[i])@
            == params[i] by {
            assert(values(s.params@)[i] == params[i]);
        }
    }
}

/// A name can be put into a statement exactly where it is made of letters,
/// digits and underscores.
pub proof fn identifiers_are_letters_digits_and_underscores(s: Seq<char>)
    ensures
        plain_identifier(s) <==> forall|i: int|
            0 <= i < s.len() ==> {
                ||| 'a' <= #[trigger] s[i] && s[i] <= 'z'
                ||| 'A' <= s[i] && s[i] <= 'Z'
                ||| '0' <= s[i] && s[i] <= '9'
                ||| s[i] == '_'
            },
{
}

/// What is counted as missing a thumbnail is what is listed as missing one:
/// the images without a thumbnail of the size that is asked about, those
/// left out whose thumbnail of that size is marked as failed.
pub proof fn missing_thumbnails_are_counted_as_listed()
    ensures
        ({
            let lacks =
                " FROM images i LEFT JOIN thumbnails t ON i.hash = t.image_hash AND t.size = ?1 WHERE t.id IS NULL AND NOT EXISTS (SELECT 1 FROM thumbnail_failures f WHERE f.image_hash = i.hash AND f.size = ?1)"@;
            &&& count_missing_thumbnails_sql() == "SELECT COUNT(*)"@ + lacks
            &&& missing_thumbnails_sql() == "SELECT i.path, i.hash"@ + lacks + " LIMIT ?2"@
        }),
{
    reveal_strlit(
        "SELECT i.path, i.hash FROM images i LEFT JOIN thumbnails t ON i.hash = t.image_hash AND t.size = ?1 WHERE t.id IS NULL AND NOT EXISTS (SELECT 1 FROM thumbnail_failures f WHERE f.image_hash = i.hash AND f.size = ?1) LIMIT ?2",
    );
    reveal_strlit(
        "SELECT COUNT(*) FROM images i LEFT JOIN thumbnails t ON i.hash = t.image_hash AND t.size = ?1 WHERE t.id IS NULL AND NOT EXISTS (SELECT 1 FROM thumbnail_failures f WHERE f.image_hash = i.hash AND f.size = ?1)",
    );
    reveal_strlit(
        " FROM images i LEFT JOIN thumbnails t ON i.hash = t.image_hash AND t.size = ?1 WHERE t.id IS NULL AND NOT EXISTS (SELECT 1 FROM thumbnail_failures f WHERE f.image_hash = i.hash AND f.size = ?1)",
    );
    reveal_strlit("SELECT COUNT(*)");
    reveal_strlit("SELECT i.path, i.hash");
    reveal_strlit(" LIMIT ?2");
    let lacks =
        " FROM images i LEFT JOIN thumbnails t ON i.hash = t.image_hash AND t.size = ?1 WHERE t.id IS NULL AND NOT EXISTS (SELECT 1 FROM thumbnail_failures f WHERE f.image_hash = i.hash AND f.size = ?1)"@;
    assert(count_missing_thumbnails_sql() == "SELECT COUNT(*)"@ + lacks);
    assert(missing_thumbnails_sql() == "SELECT i.path, i.hash"@ + lacks + " LIMIT ?2"@);
}

} // verus!
