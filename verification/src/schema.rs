//! The database schema: which statements bring a database of a given version
//! up to date.
//!
//! The version is kept in a `schema_meta(version)` table. Each migration is
//! idempotent, and the version stamp is written once after all of them
//! succeed, so a run that failed half-way is simply repeated.

use vstd::prelude::*;
use vstd::string::*;
use crate::database::{is_plain_identifier, plain_identifier, Statement};
use crate::sql::{values, SqlModel, SqlValue};
use crate::text::{
    ascii_alnum, ascii_lower, decimal, is_ascii_alnum, list_contains, lower_char, push_char,
    push_decimal, texts,
};
use crate::units::EmbeddingDim;

verus! {

/// The highest migration version.
pub const LATEST_MIGRATION_VERSION: i32 = 6;

/// A schema request that was refused.
#[derive(Debug, Clone, Copy, PartialEq, Eq, Structural)]
pub enum SchemaError {
    /// A table name that is empty or no plain identifier.
    InvalidTableName,
}

/// What becomes of one character of a model name in a table name.
pub open spec fn table_char(c: char) -> char {
    if is_ascii_alnum(c) {
        ascii_lower(c)
    } else {
        '_'
    }
}

/// The vector table of a model.
pub open spec fn model_table(name: Seq<char>) -> Seq<char> {
    "image_vectors_"@ + name.map_values(|c: char| table_char(c))
}

/// Derive a safe SQL identifier from a model name.
///
/// ASCII alphanumeric characters are lowercased; everything else becomes `_`.
/// The result is prefixed with `image_vectors_` so it is clearly namespaced.
pub fn sanitize_model_table(name: &str) -> (r: String)
    ensures
        r@ == model_table(name@),
{
    let mut out: String = "image_vectors_".to_owned();
    let ghost prefix = out@;
    for c in iter: name.chars()
        invariant
            iter.seq() == name@,
            prefix == "image_vectors_"@,
            out@ == prefix + name@.take(iter.index() as int).map_values(|x: char| table_char(x)),
    {
        let t: char = if ascii_alnum(c) {
            lower_char(c)
        } else {
            '_'
        };
        push_char(&mut out, t);
        proof {
            let n = iter.index() as int;
            assert(name@.take(n + 1) == name@.take(n).push(c));
            assert(out@ == prefix + name@.take(n + 1).map_values(|x: char| table_char(x)));
        }
    }
    assert(name@.take(name@.len() as int) == name@);
    out
}

/// The statement that creates a vector table.
pub open spec fn vector_table_sql(table: Seq<char>, dim: nat) -> Seq<char> {
    "CREATE TABLE IF NOT EXISTS "@ + table
        + " (image_id INTEGER PRIMARY KEY REFERENCES images(id) ON DELETE CASCADE, embedding F32_BLOB("@
        + decimal(dim) + ") NOT NULL)"@
}

/// The statement that creates a named `F32_BLOB` vector table keyed on
/// `images.id`.
///
/// The table name is validated as a safe SQL identifier (only ASCII
/// alphanumerics and underscores are allowed) before interpolation.
pub fn create_vector_table(table: &str, dim: EmbeddingDim) -> (r: Result<String, SchemaError>)
    ensures
        table@.len() > 0 && plain_identifier(table@) ==> r is Ok,
        !(table@.len() > 0 && plain_identifier(table@)) ==> r == Err::<String, SchemaError>(
            SchemaError::InvalidTableName,
        ),
        r matches Ok(sql) ==> sql@ == vector_table_sql(table@, dim.0 as nat),
{
    if table.is_empty() || !is_plain_identifier(table) {
        return Err(SchemaError::InvalidTableName);
    }
    let mut out: String = "CREATE TABLE IF NOT EXISTS ".to_owned();
    out.append(table);
    out.append(
        " (image_id INTEGER PRIMARY KEY REFERENCES images(id) ON DELETE CASCADE, embedding F32_BLOB(",
    );
    push_decimal(&mut out, dim.get() as u64);
    out.append(") NOT NULL)");
    Ok(out)
}

/// Core images table.
pub const CREATE_IMAGES: [&'static str; 1] = [
    "CREATE TABLE IF NOT EXISTS images (id INTEGER PRIMARY KEY AUTOINCREMENT, path TEXT UNIQUE NOT NULL, hash TEXT NOT NULL, created_at DATETIME DEFAULT CURRENT_TIMESTAMP)",
];

/// The rest of the baseline: indexes, thumbnail cache, metadata, favorites.
pub const BASELINE_TABLES: [&'static str; 11] = [
    // Path index for fast lookup.
    "CREATE INDEX IF NOT EXISTS idx_images_path ON images(path)",
    // Hash index for duplicate detection.
    "CREATE INDEX IF NOT EXISTS idx_images_hash ON images(hash)",
    // Thumbnail cache.
    "CREATE TABLE IF NOT EXISTS thumbnails (id INTEGER PRIMARY KEY AUTOINCREMENT, image_hash TEXT NOT NULL, size INTEGER NOT NULL, thumbnail_data BLOB NOT NULL, created_at DATETIME DEFAULT CURRENT_TIMESTAMP, UNIQUE(image_hash, size))",
    // Thumbnail lookup index.
    "CREATE INDEX IF NOT EXISTS idx_thumbnails_hash_size ON thumbnails(image_hash, size)",
    // EXIF / metadata table.
    "CREATE TABLE IF NOT EXISTS image_metadata (id INTEGER PRIMARY KEY AUTOINCREMENT, image_id INTEGER NOT NULL, file_size INTEGER, width INTEGER, height INTEGER, latitude REAL, longitude REAL, camera_make TEXT, camera_model TEXT, datetime_taken DATETIME, created_at DATETIME DEFAULT CURRENT_TIMESTAMP, FOREIGN KEY(image_id) REFERENCES images(id) ON DELETE CASCADE, UNIQUE(image_id))",
    // Metadata lookup index.
    "CREATE INDEX IF NOT EXISTS idx_metadata_image_id ON image_metadata(image_id)",
    // GPS index for location queries.
    "CREATE INDEX IF NOT EXISTS idx_metadata_gps ON image_metadata(latitude, longitude)",
    // Composite geo+time index for map queries ordered by capture time.
    "CREATE INDEX IF NOT EXISTS idx_metadata_geo_time ON image_metadata(latitude, longitude, datetime_taken)",
    // Composite camera+time index for camera-model filters.
    "CREATE INDEX IF NOT EXISTS idx_metadata_camera_time ON image_metadata(camera_model, datetime_taken)",
    // Partial index over capture time (only rows with a datetime).
    "CREATE INDEX IF NOT EXISTS idx_metadata_datetime ON image_metadata(datetime_taken) WHERE datetime_taken IS NOT NULL",
    // Favorites table.
    "CREATE TABLE IF NOT EXISTS favorites (image_id INTEGER PRIMARY KEY, created_at DATETIME DEFAULT CURRENT_TIMESTAMP, FOREIGN KEY(image_id) REFERENCES images(id) ON DELETE CASCADE)",
];

/// Model registry (with the default model, active) and user-data tables.
pub const MODELS_AND_USERDATA: [&'static str; 6] = [
    "CREATE TABLE IF NOT EXISTS models (name TEXT PRIMARY KEY, dim INTEGER NOT NULL, table_name TEXT NOT NULL, is_active INTEGER NOT NULL DEFAULT 0, created_at DATETIME DEFAULT CURRENT_TIMESTAMP)",
    "INSERT OR IGNORE INTO models (name, dim, table_name, is_active) VALUES ('openai/clip-vit-base-patch32', 512, 'image_vectors', 1)",
    "CREATE TABLE IF NOT EXISTS tags (id INTEGER PRIMARY KEY AUTOINCREMENT, name TEXT UNIQUE NOT NULL, created_at DATETIME DEFAULT CURRENT_TIMESTAMP)",
    "CREATE TABLE IF NOT EXISTS image_tags (image_id INTEGER NOT NULL, tag_id INTEGER NOT NULL, PRIMARY KEY(image_id, tag_id), FOREIGN KEY(image_id) REFERENCES images(id) ON DELETE CASCADE, FOREIGN KEY(tag_id) REFERENCES tags(id) ON DELETE CASCADE)",
    "CREATE TABLE IF NOT EXISTS collections (id INTEGER PRIMARY KEY AUTOINCREMENT, name TEXT UNIQUE NOT NULL, created_at DATETIME DEFAULT CURRENT_TIMESTAMP)",
    "CREATE TABLE IF NOT EXISTS collection_images (collection_id INTEGER NOT NULL, image_id INTEGER NOT NULL, PRIMARY KEY(collection_id, image_id), FOREIGN KEY(collection_id) REFERENCES collections(id) ON DELETE CASCADE, FOREIGN KEY(image_id) REFERENCES images(id) ON DELETE CASCADE)",
];

/// Single-row persisted GUI session state.
pub const UI_STATE: [&'static str; 1] = [
    "CREATE TABLE IF NOT EXISTS ui_state (id INTEGER PRIMARY KEY CHECK (id = 1), state_json TEXT NOT NULL, updated_at DATETIME DEFAULT CURRENT_TIMESTAMP)",
];

/// Image edits table for exposure adjustments.
pub const IMAGE_EDITS: [&'static str; 1] = [
    "CREATE TABLE IF NOT EXISTS image_edits (image_id   INTEGER PRIMARY KEY REFERENCES images(id) ON DELETE CASCADE, exposure   REAL NOT NULL DEFAULT 0.0, updated_at DATETIME DEFAULT CURRENT_TIMESTAMP)",
];

/// The five adjustment columns that the edits table gained later.
pub const EDIT_COLUMNS: [&'static str; 5] = [
    "contrast",
    "brightness",
    "blacks",
    "whites",
    "saturation",
];

/// Record of thumbnails that permanently fail to generate, so the pipeline
/// stops retrying undecodable images on every pass. Keyed by content hash +
/// size, mirroring the `thumbnails` table.
pub const THUMBNAIL_FAILURES: [&'static str; 2] = [
    "CREATE TABLE IF NOT EXISTS thumbnail_failures (id INTEGER PRIMARY KEY AUTOINCREMENT, image_hash TEXT NOT NULL, size INTEGER NOT NULL, error TEXT, failed_at DATETIME DEFAULT CURRENT_TIMESTAMP, UNIQUE(image_hash, size))",
    "CREATE INDEX IF NOT EXISTS idx_thumbnail_failures_hash ON thumbnail_failures(image_hash)",
];

/// The texts of a list of constants.
pub open spec fn str_texts(list: Seq<&str>) -> Seq<Seq<char>> {
    list.map_values(|s: &str| s@)
}

/// The statement that adds an adjustment column.
pub open spec fn add_column_sql(col: Seq<char>) -> Seq<char> {
    "ALTER TABLE image_edits ADD COLUMN "@ + col + " REAL NOT NULL DEFAULT 0.0"@
}

/// The statements that add those of the columns that are not there yet.
pub open spec fn missing_columns_sql(cols: Seq<Seq<char>>, present: Seq<Seq<char>>) -> Seq<
    Seq<char>,
>
    decreases cols.len(),
{
    if cols.len() == 0 {
        Seq::empty()
    } else {
        let before = missing_columns_sql(cols.drop_last(), present);
        if present.contains(cols.last()) {
            before
        } else {
            before.push(add_column_sql(cols.last()))
        }
    }
}

/// The statements of migration `n`. `present` are the columns that the edits
/// table has already.
pub open spec fn migration_sql(n: int, present: Seq<Seq<char>>) -> Seq<Seq<char>> {
    if n == 1 {
        str_texts(CREATE_IMAGES@) + seq![vector_table_sql("image_vectors"@, 512)] + str_texts(
            BASELINE_TABLES@,
        )
    } else if n == 2 {
        str_texts(MODELS_AND_USERDATA@)
    } else if n == 3 {
        str_texts(UI_STATE@)
    } else if n == 4 {
        str_texts(IMAGE_EDITS@)
    } else if n == 5 {
        missing_columns_sql(str_texts(EDIT_COLUMNS@), present)
    } else if n == 6 {
        str_texts(THUMBNAIL_FAILURES@)
    } else {
        Seq::empty()
    }
}

/// The statements of the migrations above `version` up to `upto`, in order.
pub open spec fn pending_sql(version: int, upto: int, present: Seq<Seq<char>>) -> Seq<Seq<char>>
    decreases upto,
{
    if upto <= version || upto <= 0 {
        Seq::empty()
    } else {
        pending_sql(version, upto - 1, present) + migration_sql(upto, present)
    }
}

fn push_all(out: &mut Vec<String>, list: &[&'static str])
    ensures
        texts(final(out)@) == texts(old(out)@) + str_texts(list@),
{
    let ghost start = texts(out@);
    let mut i: usize = 0;
    assert(start + str_texts(list@).take(0) == start);
    while i < list.len()
        invariant
            i <= list@.len(),
            texts(out@) == start + str_texts(list@).take(i as int),
        decreases list@.len() - i,
    {
        let ghost before = out@;
        out.push(list[i].to_owned());
        proof {
            assert(texts(out@) == texts(before).push(list@[i as int]@));
            assert(str_texts(list@).take(i + 1) == str_texts(list@).take(i as int).push(
                list@[i as int]@,
            ));
        }
        i = i + 1;
    }
    assert(str_texts(list@).take(i as int) == str_texts(list@));
}

/// Migration 1: baseline schema (images, vector table, thumbnails, metadata,
/// favorites).
pub fn migration_001_baseline() -> (r: Vec<String>)
    ensures
        texts(r@) == migration_sql(1, Seq::empty()),
{
    let mut out: Vec<String> = Vec::new();
    assert(texts(out@) == Seq::<Seq<char>>::empty());
    push_all(&mut out, CREATE_IMAGES.as_slice());
    proof {
        reveal_strlit("image_vectors");
    }
    let ghost before = out@;
    match create_vector_table("image_vectors", EmbeddingDim(512)) {
        Ok(sql) => {
            out.push(sql);
            assert(texts(out@) == texts(before) + seq![vector_table_sql("image_vectors"@, 512)]);
        },
        Err(_) => {},
    }
    push_all(&mut out, BASELINE_TABLES.as_slice());
    assert(texts(out@) == migration_sql(1, Seq::empty()));
    out
}

/// Migration 5: the adjustment columns that are not there yet, so that a run
/// that failed half-way can be repeated.
pub fn migration_005_edit_controls(present: &Vec<String>) -> (r: Vec<String>)
    ensures
        texts(r@) == migration_sql(5, texts(present@)),
{
    let mut out: Vec<String> = Vec::new();
    let mut i: usize = 0;
    let ghost cols = str_texts(EDIT_COLUMNS@);
    assert(texts(out@) == missing_columns_sql(cols.take(0), texts(present@)));
    while i < EDIT_COLUMNS.len()
        invariant
            i <= EDIT_COLUMNS@.len(),
            cols == str_texts(EDIT_COLUMNS@),
            texts(out@) == missing_columns_sql(cols.take(i as int), texts(present@)),
        decreases EDIT_COLUMNS@.len() - i,
    {
        let col: &str = EDIT_COLUMNS[i];
        proof {
            assert(cols.take(i + 1).drop_last() == cols.take(i as int));
            assert(cols.take(i + 1).last() == col@);
        }
        if !list_contains(present, col) {
            let ghost before = out@;
            out.push(
                "ALTER TABLE image_edits ADD COLUMN ".to_owned().concat(col).concat(
                    " REAL NOT NULL DEFAULT 0.0",
                ),
            );
            assert(texts(out@) == texts(before).push(add_column_sql(col@)));
        }
        i = i + 1;
    }
    assert(cols.take(i as int) == cols);
    out
}

/// The table that keeps the schema version.
pub const VERSION_TABLE: &'static str = "CREATE TABLE IF NOT EXISTS schema_meta (version INTEGER NOT NULL)";

/// The version row of a new database.
pub const VERSION_SEED: &'static str = "INSERT INTO schema_meta (version) VALUES (0)";

/// The version that the first `schema_meta` row records, and the statement to
/// run where there is no such row. A missing row is a new database, and
/// anything but a number counts as zero.
pub fn current_version(row: Option<SqlValue>) -> (r: (i32, Option<&'static str>))
    ensures
        r.0 == match row {
            Some(SqlValue::Integer(v)) => v as i32,
            _ => 0,
        },
        r.1 is Some <==> row is None,
        r.1 matches Some(seed) ==> seed@ == VERSION_SEED@,
{
    match row {
        Some(SqlValue::Integer(v)) => (v as i32, None),
        Some(_) => (0, None),
        None => (0, Some(VERSION_SEED)),
    }
}

/// All pending schema migrations of a database at version `current`, as
/// statements in order. `present` are the columns of its edits table, if it
/// has one. Already-applied migrations are skipped. The version is to be
/// stamped after all statements succeed; see [`version_stamp`].
pub fn run_migrations(current: i32, present: &Vec<String>) -> (r: Vec<String>)
    ensures
        texts(r@) == pending_sql(current as int, LATEST_MIGRATION_VERSION as int, texts(present@)),
{
    let mut out: Vec<String> = Vec::new();
    let ghost cols = texts(present@);
    let ghost v = current as int;
    assert(texts(out@) == Seq::<Seq<char>>::empty());
    proof {
        reveal_with_fuel(pending_sql, 8);
    }
    if current < 1 {
        let mut base: Vec<String> = migration_001_baseline();
        append_texts(&mut out, &mut base);
        assert(migration_sql(1, cols) == migration_sql(1, Seq::empty()));
    }
    assert(texts(out@) == pending_sql(v, 1, cols));
    if current < 2 {
        push_all(&mut out, MODELS_AND_USERDATA.as_slice());
    }
    assert(texts(out@) == pending_sql(v, 2, cols));
    if current < 3 {
        push_all(&mut out, UI_STATE.as_slice());
    }
    assert(texts(out@) == pending_sql(v, 3, cols));
    if current < 4 {
        push_all(&mut out, IMAGE_EDITS.as_slice());
    }
    assert(texts(out@) == pending_sql(v, 4, cols));
    if current < 5 {
        let mut more: Vec<String> = migration_005_edit_controls(present);
        append_texts(&mut out, &mut more);
    }
    assert(texts(out@) == pending_sql(v, 5, cols));
    if current < 6 {
        push_all(&mut out, THUMBNAIL_FAILURES.as_slice());
    }
    assert(texts(out@) == pending_sql(v, 6, cols));
    out
}

fn append_texts(out: &mut Vec<String>, more: &mut Vec<String>)
    ensures
        texts(final(out)@) == texts(old(out)@) + texts(old(more)@),
{
    let ghost a = out@;
    let ghost b = more@;
    out.append(more);
    assert(texts(out@) == texts(a) + texts(b));
}

/// The statement that records the new version, where there was anything to
/// migrate.
pub fn version_stamp(current: i32) -> (r: Option<Statement>)
    ensures
        r is Some <==> current < LATEST_MIGRATION_VERSION,
        r matches Some(s) ==> crate::database::is_statement(
            s,
            "UPDATE schema_meta SET version = ?1"@,
            seq![SqlModel::Integer(LATEST_MIGRATION_VERSION as int)],
        ),
{
    if current < LATEST_MIGRATION_VERSION {
        let params: Vec<SqlValue> = vec![SqlValue::Integer(LATEST_MIGRATION_VERSION as i64)];
        assert(values(params@) == seq![SqlModel::Integer(LATEST_MIGRATION_VERSION as int)]);
        Some(Statement { sql: "UPDATE schema_meta SET version = ?1".to_owned(), params })
    } else {
        None
    }
}

/// A model's table name is always one that can be created and queried: a
/// plain identifier, and not empty.
pub proof fn model_tables_are_identifiers(name: Seq<char>)
    ensures
        plain_identifier(model_table(name)),
        model_table(name).len() > 0,
{
    reveal_strlit("image_vectors_");
    let t = model_table(name);
    assert forall|i: int| 0 <= i < t.len() implies is_ascii_alnum(#[trigger] t[i]) || t[i] == '_' by {
        if i >= 14 {
            let c = name[i - 14];
            assert(t[i] == table_char(c));
        }
    }
}

/// An up-to-date database is left alone: nothing is pending at the latest
/// version or beyond it.
pub proof fn nothing_pends_when_up_to_date(version: int, present: Seq<Seq<char>>)
    requires
        version >= LATEST_MIGRATION_VERSION,
    ensures
        pending_sql(version, LATEST_MIGRATION_VERSION as int, present) == Seq::<Seq<char>>::empty(),
{
}

/// Migrating from an older version is migrating to a newer one first and then
/// going on from there: the order of the statements does not depend on where
/// a database starts.
pub proof fn migrations_run_in_one_order(
    from: int,
    via: int,
    upto: int,
    present: Seq<Seq<char>>,
)
    requires
        0 <= from <= via <= upto,
    ensures
        pending_sql(from, upto, present) == pending_sql(from, via, present) + pending_sql(
            via,
            upto,
            present,
        ),
    decreases upto,
{
    if via < upto {
        migrations_run_in_one_order(from, via, upto - 1, present);
    }
}

/// A repeated run after a failure adds no column twice: with every column
/// present, the fifth migration has nothing left to do.
pub proof fn present_columns_are_not_added_again(
    cols: Seq<Seq<char>>,
    present: Seq<Seq<char>>,
)
    requires
        forall|i: int| 0 <= i < cols.len() ==> present.contains(#[trigger] cols[i]),
    ensures
        missing_columns_sql(cols, present) == Seq::<Seq<char>>::empty(),
    decreases cols.len(),
{
    if cols.len() > 0 {
        present_columns_are_not_added_again(cols.drop_last(), present);
    }
}

/// Each column that is missing is added, once and in the order of the
/// columns, and no other is.
pub proof fn missing_columns_are_added(cols: Seq<Seq<char>>, present: Seq<Seq<char>>)
    ensures
        forall|i: int|
            0 <= i < cols.len() && !present.contains(#[trigger] cols[i]) ==> missing_columns_sql(
                cols,
                present,
            ).contains(
                "ALTER TABLE image_edits ADD COLUMN "@ + cols[i] + " REAL NOT NULL DEFAULT 0.0"@,
            ),
        forall|j: int|
            0 <= j < missing_columns_sql(cols, present).len() ==> exists|i: int|
                {
                    &&& 0 <= i < cols.len()
                    &&& !present.contains(#[trigger] cols[i])
                    &&& #[trigger] missing_columns_sql(cols, present)[j]
                        == "ALTER TABLE image_edits ADD COLUMN "@ + cols[i]
                        + " REAL NOT NULL DEFAULT 0.0"@
                },
        missing_columns_sql(cols, present).len() == cols.filter(
            |c: Seq<char>| !present.contains(c),
        ).len(),
    decreases cols.len(),
{
    reveal(Seq::filter);
    if cols.len() > 0 {
        let front = cols.drop_last();
        missing_columns_are_added(front, present);
        let before = missing_columns_sql(front, present);
        let all = missing_columns_sql(cols, present);
        assert forall|i: int|
            0 <= i < cols.len() && !present.contains(#[trigger] cols[i]) implies all.contains(
            "ALTER TABLE image_edits ADD COLUMN "@ + cols[i] + " REAL NOT NULL DEFAULT 0.0"@,
        ) by {
            let s = "ALTER TABLE image_edits ADD COLUMN "@ + cols[i]
                + " REAL NOT NULL DEFAULT 0.0"@;
            if i < front.len() {
                assert(front[i] == cols[i]);
                let k = choose|k: int| 0 <= k < before.len() && before[k] == s;
                assert(all[k] == s);
            } else {
                assert(all[before.len() as int] == s);
            }
        }
        assert forall|j: int| 0 <= j < all.len() implies exists|i: int|
            {
                &&& 0 <= i < cols.len()
                &&& !present.contains(#[trigger] cols[i])
                &&& #[trigger] all[j] == "ALTER TABLE image_edits ADD COLUMN "@ + cols[i]
                    + " REAL NOT NULL DEFAULT 0.0"@
            } by {
            if j < before.len() {
                assert(all[j] == before[j]);
                let i = choose|i: int|
                    {
                        &&& 0 <= i < front.len()
                        &&& !present.contains(#[trigger] front[i])
                        &&& before[j] == "ALTER TABLE image_edits ADD COLUMN "@ + front[i]
                            + " REAL NOT NULL DEFAULT 0.0"@
                    };
                assert(cols[i] == front[i]);
            } else {
                assert(!present.contains(cols[cols.len() - 1]));
            }
        }
    }
}

/// The adjustments that came later than the exposure are contrast, brightness,
/// whites, blacks and saturation.
pub proof fn the_adjustments_are_these()
    ensures
        EDIT_COLUMNS@.len() == 5,
        str_texts(EDIT_COLUMNS@).contains("contrast"@),
        str_texts(EDIT_COLUMNS@).contains("brightness"@),
        str_texts(EDIT_COLUMNS@).contains("whites"@),
        str_texts(EDIT_COLUMNS@).contains("blacks"@),
        str_texts(EDIT_COLUMNS@).contains("saturation"@),
{
    let c = str_texts(EDIT_COLUMNS@);
    assert(c[0] == "contrast"@ && c[1] == "brightness"@ && c[2] == "blacks"@);
    assert(c[3] == "whites"@ && c[4] == "saturation"@);
}

/// No migration is skipped: a database below a version gets every statement
/// of that version's migration.
pub proof fn no_migration_is_skipped(
    version: int,
    n: int,
    upto: int,
    present: Seq<Seq<char>>,
    i: int,
)
    requires
        0 <= version < n <= upto,
        0 <= i < migration_sql(n, present).len(),
    ensures
        pending_sql(version, upto, present).contains(migration_sql(n, present)[i]),
    decreases upto,
{
    let s = migration_sql(n, present)[i];
    let before = pending_sql(version, upto - 1, present);
    let own = migration_sql(upto, present);
    if n == upto {
        assert((before + own)[before.len() + i] == s);
    } else {
        no_migration_is_skipped(version, n, upto - 1, present, i);
        let k = choose|k: int| 0 <= k < before.len() && before[k] == s;
        assert((before + own)[k] == s);
    }
}

/// A new database starts with the table of images and one for the vectors of
/// the built-in model, which have 512 dimensions.
pub proof fn the_baseline_comes_first(present: Seq<Seq<char>>)
    ensures
        migration_sql(1, present).len() > 2,
        migration_sql(1, present)[0] == CREATE_IMAGES@[0]@,
        migration_sql(1, present)[1] == vector_table_sql("image_vectors"@, 512),
        forall|i: int|
            0 <= i < BASELINE_TABLES@.len() ==> migration_sql(1, present)[2 + i]
                == #[trigger] BASELINE_TABLES@[i]@,
{
}

/// The table of a model is named after it, character by character: letters
/// in small form and digits as they are, everything else as an underscore.
pub proof fn tables_are_named_after_their_model(name: Seq<char>, i: int)
    requires
        0 <= i < name.len(),
    ensures
        model_table(name).len() == 14 + name.len(),
        model_table(name).take(14) == "image_vectors_"@,
        ({
            let c = name[i];
            let t = model_table(name)[14 + i];
            &&& 'a' <= c && c <= 'z' || '0' <= c && c <= '9' ==> t == c
            &&& 'A' <= c && c <= 'Z' ==> t as u32 == c as u32 + 32
            &&& !is_ascii_alnum(c) ==> t == '_'
        }),
{
    reveal_strlit("image_vectors_");
    assert(model_table(name).take(14) == "image_vectors_"@);
    assert(model_table(name)[14 + i] == table_char(name[i]));
}

} // verus!
