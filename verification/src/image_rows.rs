//! The rows of images: how they are written with their embeddings, how they
//! are listed, and how they leave.

use vstd::prelude::*;
use vstd::string::*;
use crate::database::{is_statement, Database, DbError, Statement, StatementModel};
use crate::ids::ImageId;
use crate::indexing::IndexRow;
use crate::path_model::{joined_path, parts, path_after, within};
use crate::paths::{AbsolutePath, RelativePath};
use crate::records::{found_id, plain, read_id, with_one, with_two};
use crate::sql::{values, SqlModel, SqlValue};
use crate::text::ends_with;

verus! {

/// Removes an image's embedding from a vector table.
pub open spec fn dropping_vector(vt: Seq<char>, id: ImageId) -> StatementModel {
    StatementModel {
        sql: "DELETE FROM "@ + vt + " WHERE image_id = ?1"@,
        params: seq![SqlModel::Integer(id.0 as int)],
    }
}

/// Stores an image's embedding in a vector table.
pub open spec fn storing_vector(vt: Seq<char>, id: ImageId, embedding: Seq<u8>) -> StatementModel {
    StatementModel {
        sql: "INSERT INTO "@ + vt + " (image_id, embedding) VALUES (?1, ?2)"@,
        params: seq![SqlModel::Integer(id.0 as int), SqlModel::Blob(embedding)],
    }
}

/// Removes an image.
pub open spec fn dropping_image(id: ImageId) -> StatementModel {
    StatementModel {
        sql: "DELETE FROM images WHERE id = ?1"@,
        params: seq![SqlModel::Integer(id.0 as int)],
    }
}

/// Inserts an image, or gives the one at the same path a new hash and leaves
/// it its id.
pub open spec fn upserting(path: Seq<char>, hash: Seq<char>) -> StatementModel {
    StatementModel {
        sql: "INSERT INTO images (path, hash) VALUES (?1, ?2) ON CONFLICT(path) DO UPDATE SET hash = excluded.hash"@,
        params: seq![SqlModel::Text(path), SqlModel::Text(hash)],
    }
}

/// Looks up the id of the image at a path.
pub open spec fn finding_id(path: Seq<char>) -> StatementModel {
    StatementModel {
        sql: "SELECT id FROM images WHERE path = ?1"@,
        params: seq![SqlModel::Text(path)],
    }
}

/// The text of [`Database::get_sample_images`].
pub open spec fn sample_sql() -> Seq<char> {
    "SELECT path FROM images ORDER BY created_at DESC LIMIT ?1"@
}

/// The text of [`Database::get_images_by_bounds`].
pub open spec fn bounds_sql() -> Seq<char> {
    "SELECT i.path, i.hash, m.latitude, m.longitude, m.width, m.height, m.datetime_taken FROM images i JOIN image_metadata m ON i.id = m.image_id WHERE m.latitude IS NOT NULL AND m.longitude IS NOT NULL AND m.latitude BETWEEN ?1 AND ?2 AND m.longitude BETWEEN ?3 AND ?4 ORDER BY m.datetime_taken DESC"@
}

fn drop_vector(vt: &str, id: ImageId) -> (r: Statement)
    ensures
        r@ == dropping_vector(vt@, id),
{
    let s: Statement = with_one(
        Database::delete_vector_sql(vt).as_str(),
        SqlValue::Integer(id.get()),
    );
    assert(s@ == dropping_vector(vt@, id));
    s
}

fn store_vector(vt: &str, id: ImageId, embedding: Vec<u8>) -> (r: Statement)
    ensures
        r@ == storing_vector(vt@, id, embedding@),
{
    let s: Statement = with_two(
        Database::insert_vector_sql(vt).as_str(),
        SqlValue::Integer(id.get()),
        SqlValue::Blob(embedding),
    );
    assert(s@ == storing_vector(vt@, id, embedding@));
    s
}

fn upsert_image(path: &str, hash: &str) -> (r: Statement)
    ensures
        r@ == upserting(path@, hash@),
{
    let s: Statement = with_two(
        "INSERT INTO images (path, hash) VALUES (?1, ?2) ON CONFLICT(path) DO UPDATE SET hash = excluded.hash",
        SqlValue::Text(path.to_owned()),
        SqlValue::Text(hash.to_owned()),
    );
    assert(s@ == upserting(path@, hash@));
    s
}

impl Database {
    /// Removes images whose files are gone, each after its embedding in the
    /// active model's table; all to be written in one transaction.
    pub fn clean_missing_files(vt: &str, ids: &Vec<ImageId>) -> (r: Vec<(Statement, Statement)>)
        ensures
            r@.len() == ids@.len(),
            forall|i: int|
                0 <= i < r@.len() ==> (#[trigger] r@[i]).0@ == dropping_vector(vt@, ids@[i])
                    && r@[i].1@ == dropping_image(ids@[i]),
    {
        let mut out: Vec<(Statement, Statement)> = Vec::new();
        let mut i: usize = 0;
        while i < ids.len()
            invariant
                i <= ids@.len(),
                out@.len() == i,
                forall|k: int|
                    0 <= k < i ==> (#[trigger] out@[k]).0@ == dropping_vector(vt@, ids@[k])
                        && out@[k].1@ == dropping_image(ids@[k]),
            decreases ids@.len() - i,
        {
            let s: Statement = with_one(
                "DELETE FROM images WHERE id = ?1",
                SqlValue::Integer(ids[i].get()),
            );
            assert(s@ == dropping_image(ids@[i as int]));
            out.push((drop_vector(vt, ids[i]), s));
            i = i + 1;
        }
        out
    }

    /// Insert `(path, hash)` rows, to be written in one transaction. An image
    /// that is there already keeps its id and gets the new hash.
    pub fn insert_image_rows_batch(rows: &Vec<IndexRow>) -> (r: Vec<Statement>)
        ensures
            r@.len() == rows@.len(),
            forall|i: int|
                0 <= i < r@.len() ==> (#[trigger] r@[i])@ == upserting(
                    rows@[i].rel_path@,
                    rows@[i].hash@,
                ),
    {
        let mut out: Vec<Statement> = Vec::new();
        let mut i: usize = 0;
        while i < rows.len()
            invariant
                i <= rows@.len(),
                out@.len() == i,
                forall|k: int|
                    0 <= k < i ==> (#[trigger] out@[k])@ == upserting(
                        rows@[k].rel_path@,
                        rows@[k].hash@,
                    ),
            decreases rows@.len() - i,
        {
            out.push(upsert_image(rows[i].rel_path.as_str(), rows[i].hash.as_str()));
            i = i + 1;
        }
        out
    }

    /// Replaces the embedding of an image in the active model's table, to be
    /// written in one transaction.
    pub fn set_image_embedding(vt: &str, image_id: ImageId, embedding: Vec<u8>) -> (r: (
        Statement,
        Statement,
    ))
        ensures
            r.0@ == dropping_vector(vt@, image_id),
            r.1@ == storing_vector(vt@, image_id, embedding@),
    {
        (drop_vector(vt, image_id), store_vector(vt, image_id, embedding))
    }

    /// The stored embedding of an image: at most one row of `(embedding)`.
    pub fn stored_embedding(vt: &str, image_id: ImageId) -> (r: Statement)
        ensures
            is_statement(
                r,
                "SELECT embedding FROM "@ + vt@ + " WHERE image_id = ?1"@,
                seq![SqlModel::Integer(image_id.0 as int)],
            ),
    {
        let sql: String = "SELECT embedding FROM ".to_owned().concat(vt).concat(
            " WHERE image_id = ?1",
        );
        with_one(sql.as_str(), SqlValue::Integer(image_id.get()))
    }

    /// How many images have no embedding in the active model's table.
    pub fn count_images_without_embedding(vt: &str) -> (r: Statement)
        ensures
            r.sql@ == count_unembedded_sql(vt@),
            is_statement(
                r,
                "SELECT COUNT(*) FROM images i LEFT JOIN "@ + vt@
                    + " v ON v.image_id = i.id WHERE v.image_id IS NULL"@,
                Seq::empty(),
            ),
    {
        let sql: String = "SELECT COUNT(*) FROM images i LEFT JOIN ".to_owned().concat(vt).concat(
            " v ON v.image_id = i.id WHERE v.image_id IS NULL",
        );
        plain(sql.as_str())
    }

    /// Images without an embedding in the active model's table: rows of
    /// `(id, path, hash)`.
    pub fn get_images_without_embedding(vt: &str, limit: usize) -> (r: Result<Statement, DbError>)
        ensures
            r matches Ok(s) ==> s.sql@ == unembedded_sql(vt@),
            limit <= i64::MAX ==> r is Ok,
            limit > i64::MAX ==> r == Err::<Statement, DbError>(DbError::LimitTooLarge),
            r matches Ok(s) ==> is_statement(
                s,
                "SELECT i.id, i.path, i.hash FROM images i LEFT JOIN "@ + vt@
                    + " v ON v.image_id = i.id WHERE v.image_id IS NULL LIMIT ?1"@,
                seq![SqlModel::Integer(limit as int)],
            ),
    {
        if limit as u64 > i64::MAX as u64 {
            return Err(DbError::LimitTooLarge);
        }
        let sql: String = "SELECT i.id, i.path, i.hash FROM images i LEFT JOIN ".to_owned().concat(
            vt,
        ).concat(" v ON v.image_id = i.id WHERE v.image_id IS NULL LIMIT ?1");
        Ok(with_one(sql.as_str(), SqlValue::Integer(limit as i64)))
    }

    /// The newest images: rows of `(path)`.
    pub fn get_sample_images(limit: usize) -> (r: Statement)
        ensures
            r.sql@ == sample_sql(),
            is_statement(
                r,
                "SELECT path FROM images ORDER BY created_at DESC LIMIT ?1"@,
                seq![SqlModel::Integer((limit as i64) as int)],
            ),
    {
        with_one(
            "SELECT path FROM images ORDER BY created_at DESC LIMIT ?1",
            SqlValue::Integer(limit as i64),
        )
    }

    /// The images within geographic bounds, given by the bits of four
    /// double-precision numbers, newest first: rows of
    /// `(path, hash, latitude, longitude, width, height, datetime_taken)`.
    pub fn get_images_by_bounds(lat_low: u64, lat_high: u64, long_low: u64, long_high: u64) -> (r:
        Statement)
        ensures
            r.sql@ == bounds_sql(),
            is_statement(
                r,
                "SELECT i.path, i.hash, m.latitude, m.longitude, m.width, m.height, m.datetime_taken FROM images i JOIN image_metadata m ON i.id = m.image_id WHERE m.latitude IS NOT NULL AND m.longitude IS NOT NULL AND m.latitude BETWEEN ?1 AND ?2 AND m.longitude BETWEEN ?3 AND ?4 ORDER BY m.datetime_taken DESC"@,
                seq![
                    SqlModel::Real(lat_low),
                    SqlModel::Real(lat_high),
                    SqlModel::Real(long_low),
                    SqlModel::Real(long_high),
                ],
            ),
    {
        let params: Vec<SqlValue> = vec![
            SqlValue::Real(lat_low),
            SqlValue::Real(lat_high),
            SqlValue::Real(long_low),
            SqlValue::Real(long_high),
        ];
        assert(values(params@) == seq![
            SqlModel::Real(lat_low),
            SqlModel::Real(lat_high),
            SqlModel::Real(long_low),
            SqlModel::Real(long_high),
        ]);
        Statement {
            sql:
                "SELECT i.path, i.hash, m.latitude, m.longitude, m.width, m.height, m.datetime_taken FROM images i JOIN image_metadata m ON i.id = m.image_id WHERE m.latitude IS NOT NULL AND m.longitude IS NOT NULL AND m.latitude BETWEEN ?1 AND ?2 AND m.longitude BETWEEN ?3 AND ?4 ORDER BY m.datetime_taken DESC".to_owned(),
            params,
        }
    }

    /// Persist edits of the image at a stored path, creating or replacing the
    /// row: the bits of exposure, saturation, blacks, whites, brightness and
    /// contrast, in this order.
    pub fn set_image_edits(path: &RelativePath, edits: [u64; 6]) -> (r: Statement)
        ensures
            is_statement(
                r,
                "INSERT INTO image_edits (image_id, exposure, saturation, blacks, whites, brightness, contrast, updated_at) SELECT i.id, ?2, ?3, ?4, ?5, ?6, ?7, CURRENT_TIMESTAMP FROM images i WHERE i.path = ?1 ON CONFLICT(image_id) DO UPDATE SET exposure = excluded.exposure, saturation = excluded.saturation, blacks = excluded.blacks, whites = excluded.whites, brightness = excluded.brightness, contrast = excluded.contrast, updated_at = CURRENT_TIMESTAMP"@,
                seq![SqlModel::Text(path.0@)] + edits@.map_values(|bits: u64| SqlModel::Real(bits)),
            ),
    {
        let params: Vec<SqlValue> = vec![
            SqlValue::Text(path.0.clone()),
            SqlValue::Real(edits[0]),
            SqlValue::Real(edits[1]),
            SqlValue::Real(edits[2]),
            SqlValue::Real(edits[3]),
            SqlValue::Real(edits[4]),
            SqlValue::Real(edits[5]),
        ];
        assert(values(params@) == seq![SqlModel::Text(path.0@)] + edits@.map_values(
            |bits: u64| SqlModel::Real(bits),
        ));
        Statement {
            sql:
                "INSERT INTO image_edits (image_id, exposure, saturation, blacks, whites, brightness, contrast, updated_at) SELECT i.id, ?2, ?3, ?4, ?5, ?6, ?7, CURRENT_TIMESTAMP FROM images i WHERE i.path = ?1 ON CONFLICT(image_id) DO UPDATE SET exposure = excluded.exposure, saturation = excluded.saturation, blacks = excluded.blacks, whites = excluded.whites, brightness = excluded.brightness, contrast = excluded.contrast, updated_at = CURRENT_TIMESTAMP".to_owned(),
            params,
        }
    }

    /// The files of images, from rows of `(id, path, hash)`.
    pub fn read_files(&self, rows: &Vec<(SqlValue, SqlValue, SqlValue)>) -> (r: Result<
        Vec<ImageFile>,
        DbError,
    >)
        ensures
            (forall|i: int| 0 <= i < rows@.len() ==> file_row(#[trigger] rows@[i])) <==> r is Ok,
            r matches Err(e) ==> e == DbError::UnexpectedValue,
            r matches Ok(list) ==> list@.len() == rows@.len() && forall|i: int|
                0 <= i < list@.len() ==> is_file_of(
                    #[trigger] list@[i],
                    rows@[i],
                    self.parent_dir@,
                ),
    {
        let mut out: Vec<ImageFile> = Vec::new();
        let mut i: usize = 0;
        while i < rows.len()
            invariant
                i <= rows@.len(),
                out@.len() == i,
                forall|k: int| 0 <= k < i ==> file_row(#[trigger] rows@[k]),
                forall|k: int|
                    0 <= k < i ==> is_file_of(#[trigger] out@[k], rows@[k], self.parent_dir@),
            decreases rows@.len() - i,
        {
            match &rows[i] {
                (SqlValue::Integer(id), SqlValue::Text(path), SqlValue::Text(hash)) => {
                    let stored: RelativePath = RelativePath(path.clone());
                    out.push(
                        ImageFile {
                            id: ImageId(*id),
                            path: stored.to_absolute(self.parent_dir.as_str()),
                            hash: hash.clone(),
                        },
                    );
                },
                _ => {
                    assert(!file_row(rows@[i as int]));
                    return Err(DbError::UnexpectedValue);
                },
            }
            i = i + 1;
        }
        Ok(out)
    }
}

/// The file of an image.
#[derive(Debug, Clone)]
pub struct ImageFile {
    pub id: ImageId,
    pub path: AbsolutePath,
    pub hash: String,
}

/// Whether a row is one of `(id, path, hash)`.
pub open spec fn file_row(row: (SqlValue, SqlValue, SqlValue)) -> bool {
    row.0 is Integer && row.1 is Text && row.2 is Text
}

/// Whether a file is the one that a row of `(id, path, hash)` stands for in
/// the library at `parent_dir`.
pub open spec fn is_file_of(
    f: ImageFile,
    row: (SqlValue, SqlValue, SqlValue),
    parent_dir: Seq<char>,
) -> bool {
    &&& row.0 == SqlValue::Integer(f.id.0)
    &&& row.1@ is Text
    &&& f.path.0@ == joined_path(parent_dir, row.1@->Text_0)
    &&& row.2@ == SqlModel::Text(f.hash@)
}

impl Database {
    /// The files to make thumbnails of, with their hashes, from rows of
    /// `(path, hash)`.
    pub fn read_sources(&self, rows: &Vec<(SqlValue, SqlValue)>) -> (r: Result<
        Vec<(AbsolutePath, String)>,
        DbError,
    >)
        ensures
            (forall|i: int|
                0 <= i < rows@.len() ==> (#[trigger] rows@[i]).0 is Text && rows@[i].1 is Text)
                <==> r is Ok,
            r matches Err(e) ==> e == DbError::UnexpectedValue,
            r matches Ok(list) ==> list@.len() == rows@.len() && forall|i: int|
                0 <= i < list@.len() ==> {
                    &&& (#[trigger] list@[i]).0.0@ == joined_path(
                        self.parent_dir@,
                        rows@[i].0@->Text_0,
                    )
                    &&& rows@[i].1@ == SqlModel::Text(list@[i].1@)
                },
    {
        let mut out: Vec<(AbsolutePath, String)> = Vec::new();
        let mut i: usize = 0;
        while i < rows.len()
            invariant
                i <= rows@.len(),
                out@.len() == i,
                forall|k: int|
                    0 <= k < i ==> (#[trigger] rows@[k]).0 is Text && rows@[k].1 is Text,
                forall|k: int|
                    0 <= k < i ==> {
                        &&& (#[trigger] out@[k]).0.0@ == joined_path(
                            self.parent_dir@,
                            rows@[k].0@->Text_0,
                        )
                        &&& rows@[k].1@ == SqlModel::Text(out@[k].1@)
                    },
            decreases rows@.len() - i,
        {
            match &rows[i] {
                (SqlValue::Text(path), SqlValue::Text(hash)) => {
                    let stored: RelativePath = RelativePath(path.clone());
                    out.push((stored.to_absolute(self.parent_dir.as_str()), hash.clone()));
                },
                _ => {
                    assert(!(rows@[i as int].0 is Text && rows@[i as int].1 is Text));
                    return Err(DbError::UnexpectedValue);
                },
            }
            i = i + 1;
        }
        Ok(out)
    }
}

/// An image to insert with its embedding: stored path, hash, and the
/// embedding's little-endian bytes.
#[derive(Debug, Clone)]
pub struct ImageRow {
    pub path: String,
    pub hash: String,
    pub embedding: Vec<u8>,
}

/// Where the transaction that inserts a list of images stands. The numbers
/// are places in the list.
#[derive(Debug, Clone, Copy, PartialEq, Eq, Structural)]
pub enum InsertStep {
    /// Write the image's row.
    Upsert(usize),
    /// Look up the id that the row has.
    FindId(usize),
    /// Drop the embedding that the image had.
    DropVector(usize, ImageId),
    /// Store the image's embedding.
    StoreVector(usize, ImageId),
    /// Commit the transaction.
    Commit,
    /// Nothing more is to be done.
    Done,
    /// Give up and roll the transaction back.
    Fail(DbError),
}

/// What follows on a step that went well; `row` is what a lookup found.
pub open spec fn next_insert(step: InsertStep, row: Option<SqlValue>, count: int) -> InsertStep {
    match step {
        InsertStep::Upsert(i) => InsertStep::FindId(i),
        InsertStep::FindId(i) => match found_id(row, DbError::MissingRow) {
            Ok(id) => InsertStep::DropVector(i, ImageId(id)),
            Err(e) => InsertStep::Fail(e),
        },
        InsertStep::DropVector(i, id) => InsertStep::StoreVector(i, id),
        InsertStep::StoreVector(i, _) => if i + 1 < count {
            InsertStep::Upsert((i + 1) as usize)
        } else {
            InsertStep::Commit
        },
        InsertStep::Commit => InsertStep::Done,
        InsertStep::Done => InsertStep::Done,
        InsertStep::Fail(e) => InsertStep::Fail(e),
    }
}

/// The statement of a step, where it has one.
pub open spec fn insert_sql(step: InsertStep, rows: Seq<ImageRow>, vt: Seq<char>) -> Option<
    StatementModel,
> {
    match step {
        InsertStep::Upsert(i) => Some(upserting(rows[i as int].path@, rows[i as int].hash@)),
        InsertStep::FindId(i) => Some(finding_id(rows[i as int].path@)),
        InsertStep::DropVector(_, id) => Some(dropping_vector(vt, id)),
        InsertStep::StoreVector(i, id) => Some(
            storing_vector(vt, id, rows[i as int].embedding@),
        ),
        _ => None,
    }
}

/// Whether a step is about an image of a list of `count`.
pub open spec fn step_fits(step: InsertStep, count: int) -> bool {
    match step {
        InsertStep::Upsert(i) | InsertStep::FindId(i) => i < count,
        InsertStep::DropVector(i, _) | InsertStep::StoreVector(i, _) => i < count,
        _ => true,
    }
}

impl Database {
    /// What is to be inserted for a file of the library.
    pub fn insert_image(&self, path: &AbsolutePath, hash: &str, embedding: Vec<u8>) -> (r: Result<
        ImageRow,
        DbError,
    >)
        ensures
            within(path.0@, self.parent_dir@) ==> r is Ok,
            !within(path.0@, self.parent_dir@) ==> r == Err::<ImageRow, DbError>(
                DbError::OutsideLibrary,
            ),
            r matches Ok(row) ==> {
                &&& row.path@ == path_after(path.0@, parts(self.parent_dir@).len() as int)
                &&& row.hash@ == hash@
                &&& row.embedding@ == embedding@
            },
    {
        match self.stored_path(path) {
            Ok(rel) => Ok(ImageRow { path: rel.0, hash: hash.to_owned(), embedding }),
            Err(e) => Err(e),
        }
    }

    /// The first step of the transaction that inserts `count` images with
    /// their embeddings. There is none where there is nothing to insert.
    pub fn insert_images_batch(count: usize) -> (r: InsertStep)
        ensures
            r == if count == 0 {
                InsertStep::Done
            } else {
                InsertStep::Upsert(0)
            },
            step_fits(r, count as int),
    {
        if count == 0 {
            InsertStep::Done
        } else {
            InsertStep::Upsert(0)
        }
    }

    /// The step that follows on one that went well; `row` is what a lookup
    /// found.
    pub fn after_insert_step(step: InsertStep, row: &Option<SqlValue>, count: usize) -> (r:
        InsertStep)
        requires
            step_fits(step, count as int),
        ensures
            r == next_insert(step, *row, count as int),
            step_fits(r, count as int),
    {
        match step {
            InsertStep::Upsert(i) => InsertStep::FindId(i),
            InsertStep::FindId(i) => match read_id(row, DbError::MissingRow) {
                Ok(id) => InsertStep::DropVector(i, ImageId(id)),
                Err(e) => InsertStep::Fail(e),
            },
            InsertStep::DropVector(i, id) => InsertStep::StoreVector(i, id),
            InsertStep::StoreVector(i, _) => {
                if i + 1 < count {
                    InsertStep::Upsert(i + 1)
                } else {
                    InsertStep::Commit
                }
            },
            InsertStep::Commit => InsertStep::Done,
            InsertStep::Done => InsertStep::Done,
            InsertStep::Fail(e) => InsertStep::Fail(e),
        }
    }

    /// The statement to run in a step, where it has one.
    pub fn insert_statement(step: InsertStep, rows: &Vec<ImageRow>, vt: &str) -> (r: Option<
        Statement,
    >)
        requires
            step_fits(step, rows@.len() as int),
        ensures
            r is Some <==> insert_sql(step, rows@, vt@) is Some,
            r matches Some(s) ==> insert_sql(step, rows@, vt@) == Some(s@),
    {
        match step {
            InsertStep::Upsert(i) => Some(
                upsert_image(rows[i].path.as_str(), rows[i].hash.as_str()),
            ),
            InsertStep::FindId(i) => {
                let s: Statement = with_one(
                    "SELECT id FROM images WHERE path = ?1",
                    SqlValue::Text(rows[i].path.clone()),
                );
                assert(s@ == finding_id(rows@[i as int].path@));
                Some(s)
            },
            InsertStep::DropVector(_, id) => Some(drop_vector(vt, id)),
            InsertStep::StoreVector(i, id) => Some(
                store_vector(vt, id, rows[i].embedding.clone()),
            ),
            _ => None,
        }
    }
}

/// The step that a transaction over `ids.len()` images is at after `k` steps
/// that went well, where the lookups find `ids`.
pub open spec fn insert_step_at(ids: Seq<i64>, k: nat) -> InsertStep
    decreases k,
{
    if k == 0 {
        if ids.len() == 0 {
            InsertStep::Done
        } else {
            InsertStep::Upsert(0)
        }
    } else {
        let step = insert_step_at(ids, (k - 1) as nat);
        let row = match step {
            InsertStep::FindId(i) => Some(SqlValue::Integer(ids[i as int])),
            _ => None,
        };
        next_insert(step, row, ids.len() as int)
    }
}

proof fn images_up_to(ids: Seq<i64>, i: nat)
    requires
        i < ids.len() <= usize::MAX,
    ensures
        insert_step_at(ids, 4 * i) == InsertStep::Upsert(i as usize),
        insert_step_at(ids, 4 * i + 1) == InsertStep::FindId(i as usize),
        insert_step_at(ids, 4 * i + 2) == InsertStep::DropVector(
            i as usize,
            ImageId(ids[i as int]),
        ),
        insert_step_at(ids, 4 * i + 3) == InsertStep::StoreVector(
            i as usize,
            ImageId(ids[i as int]),
        ),
    decreases i,
{
    if i > 0 {
        images_up_to(ids, (i - 1) as nat);
        assert(4 * (i - 1) + 3 == 4 * i - 1);
    }
    reveal_with_fuel(insert_step_at, 5);
}

/// A transaction takes the images in order and commits after the last of
/// them; each image's embedding is stored under the id found for that image,
/// once the one that it had has been dropped.
pub proof fn a_batch_writes_every_image(ids: Seq<i64>, i: nat)
    requires
        i < ids.len() <= usize::MAX,
    ensures
        insert_step_at(ids, 4 * i) == InsertStep::Upsert(i as usize),
        insert_step_at(ids, 4 * i + 1) == InsertStep::FindId(i as usize),
        insert_step_at(ids, 4 * i + 2) == InsertStep::DropVector(
            i as usize,
            ImageId(ids[i as int]),
        ),
        insert_step_at(ids, 4 * i + 3) == InsertStep::StoreVector(
            i as usize,
            ImageId(ids[i as int]),
        ),
        insert_step_at(ids, 4 * ids.len()) == InsertStep::Commit,
{
    images_up_to(ids, i);
    images_up_to(ids, (ids.len() - 1) as nat);
    assert(4 * (ids.len() - 1) + 3 == 4 * ids.len() - 1);
}

/// A lookup that finds no row, or one that holds no id, ends a transaction
/// without a commit.
pub proof fn a_failed_batch_is_not_committed(step: InsertStep, row: Option<SqlValue>, count: int)
    requires
        step is FindId || step is Fail,
        step is FindId ==> !(row matches Some(SqlValue::Integer(_))),
    ensures
        next_insert(step, row, count) is Fail,
{
}

/// The newest come first: the samples are the images that were added last,
/// and the images of a map, those with a position between the two latitudes
/// and the two longitudes, come with the latest shot first.
pub proof fn the_newest_come_first()
    ensures
        ends_with(sample_sql(), " ORDER BY created_at DESC LIMIT ?1"@),
        ends_with(
            bounds_sql(),
            " WHERE m.latitude IS NOT NULL AND m.longitude IS NOT NULL AND m.latitude BETWEEN ?1 AND ?2 AND m.longitude BETWEEN ?3 AND ?4 ORDER BY m.datetime_taken DESC"@,
        ),
{
    reveal_strlit("SELECT path FROM images ORDER BY created_at DESC LIMIT ?1");
    reveal_strlit(
        "SELECT i.path, i.hash, m.latitude, m.longitude, m.width, m.height, m.datetime_taken FROM images i JOIN image_metadata m ON i.id = m.image_id WHERE m.latitude IS NOT NULL AND m.longitude IS NOT NULL AND m.latitude BETWEEN ?1 AND ?2 AND m.longitude BETWEEN ?3 AND ?4 ORDER BY m.datetime_taken DESC",
    );
    reveal_strlit(" ORDER BY created_at DESC LIMIT ?1");
    reveal_strlit(
        " WHERE m.latitude IS NOT NULL AND m.longitude IS NOT NULL AND m.latitude BETWEEN ?1 AND ?2 AND m.longitude BETWEEN ?3 AND ?4 ORDER BY m.datetime_taken DESC",
    );
    assert(sample_sql().skip(23) == " ORDER BY created_at DESC LIMIT ?1"@);
    assert(bounds_sql().skip(140)
        == " WHERE m.latitude IS NOT NULL AND m.longitude IS NOT NULL AND m.latitude BETWEEN ?1 AND ?2 AND m.longitude BETWEEN ?3 AND ?4 ORDER BY m.datetime_taken DESC"@);
}

/// The condition that an image has no embedding in a vector table.
pub open spec fn lacks_embedding_sql(vt: Seq<char>) -> Seq<char> {
    " FROM images i LEFT JOIN "@ + vt + " v ON v.image_id = i.id WHERE v.image_id IS NULL"@
}

/// The text of [`Database::count_images_without_embedding`].
pub open spec fn count_unembedded_sql(vt: Seq<char>) -> Seq<char> {
    "SELECT COUNT(*) FROM images i LEFT JOIN "@ + vt
        + " v ON v.image_id = i.id WHERE v.image_id IS NULL"@
}

/// The text of [`Database::get_images_without_embedding`].
pub open spec fn unembedded_sql(vt: Seq<char>) -> Seq<char> {
    "SELECT i.id, i.path, i.hash FROM images i LEFT JOIN "@ + vt
        + " v ON v.image_id = i.id WHERE v.image_id IS NULL LIMIT ?1"@
}

/// What is counted as missing an embedding is what is listed as missing one:
/// the images without a row in the vector table that is asked about.
pub proof fn unembedded_images_are_counted_as_listed(vt: Seq<char>)
    ensures
        count_unembedded_sql(vt) == "SELECT COUNT(*)"@ + lacks_embedding_sql(vt),
        unembedded_sql(vt) == "SELECT i.id, i.path, i.hash"@ + lacks_embedding_sql(vt)
            + " LIMIT ?1"@,
{
    reveal_strlit("SELECT COUNT(*) FROM images i LEFT JOIN ");
    reveal_strlit(" v ON v.image_id = i.id WHERE v.image_id IS NULL");
    reveal_strlit("SELECT i.id, i.path, i.hash FROM images i LEFT JOIN ");
    reveal_strlit(" v ON v.image_id = i.id WHERE v.image_id IS NULL LIMIT ?1");
    reveal_strlit("SELECT COUNT(*)");
    reveal_strlit("SELECT i.id, i.path, i.hash");
    reveal_strlit(" FROM images i LEFT JOIN ");
    reveal_strlit(" LIMIT ?1");
    assert("SELECT COUNT(*) FROM images i LEFT JOIN "@ == "SELECT COUNT(*)"@
        + " FROM images i LEFT JOIN "@);
    assert("SELECT i.id, i.path, i.hash FROM images i LEFT JOIN "@
        == "SELECT i.id, i.path, i.hash"@ + " FROM images i LEFT JOIN "@);
    assert(" v ON v.image_id = i.id WHERE v.image_id IS NULL LIMIT ?1"@
        == " v ON v.image_id = i.id WHERE v.image_id IS NULL"@ + " LIMIT ?1"@);
    assert(count_unembedded_sql(vt) == "SELECT COUNT(*)"@ + lacks_embedding_sql(vt));
    assert(unembedded_sql(vt) == "SELECT i.id, i.path, i.hash"@ + lacks_embedding_sql(vt)
        + " LIMIT ?1"@);
}

/// Every step of a batch works on its own image: the row holds that image's
/// path and hash, the lookup asks for that path, and the embedding is that
/// image's, stored under the id that was found and in the table that was
/// asked for.
pub proof fn every_step_works_on_its_own_image(
    rows: Seq<ImageRow>,
    vt: Seq<char>,
    i: usize,
    id: ImageId,
)
    requires
        i < rows.len(),
    ensures
        insert_sql(InsertStep::Upsert(i), rows, vt) == Some(
            StatementModel {
                sql: "INSERT INTO images (path, hash) VALUES (?1, ?2) ON CONFLICT(path) DO UPDATE SET hash = excluded.hash"@,
                params: seq![
                    SqlModel::Text(rows[i as int].path@),
                    SqlModel::Text(rows[i as int].hash@),
                ],
            },
        ),
        insert_sql(InsertStep::FindId(i), rows, vt) == Some(
            StatementModel {
                sql: "SELECT id FROM images WHERE path = ?1"@,
                params: seq![SqlModel::Text(rows[i as int].path@)],
            },
        ),
        insert_sql(InsertStep::DropVector(i, id), rows, vt) == Some(
            StatementModel {
                sql: "DELETE FROM "@ + vt + " WHERE image_id = ?1"@,
                params: seq![SqlModel::Integer(id.0 as int)],
            },
        ),
        insert_sql(InsertStep::StoreVector(i, id), rows, vt) == Some(
            StatementModel {
                sql: "INSERT INTO "@ + vt + " (image_id, embedding) VALUES (?1, ?2)"@,
                params: seq![
                    SqlModel::Integer(id.0 as int),
                    SqlModel::Blob(rows[i as int].embedding@),
                ],
            },
        ),
{
}

/// The file of an image has the id and the hash of its row, and lies where the
/// row's path leads from the library's directory.
pub proof fn files_lie_where_their_rows_say(
    f: ImageFile,
    row: (SqlValue, SqlValue, SqlValue),
    parent_dir: Seq<char>,
)
    requires
        is_file_of(f, row, parent_dir),
    ensures
        row.0@ == SqlModel::Integer(f.id.0 as int),
        row.1@ matches SqlModel::Text(path) && f.path.0@ == joined_path(parent_dir, path),
        row.2@ == SqlModel::Text(f.hash@),
{
}

} // verus!
