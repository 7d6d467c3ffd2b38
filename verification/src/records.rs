//! The records of a library: models, favorites, tags, collections,
//! thumbnails, metadata, edits and embeddings. Statements are built here, and
//! what they answer is read here; running them is up to the caller.

use vstd::prelude::*;
use vstd::string::*;
use crate::database::{is_statement, Database, DbError, ModelInfo, Statement, StatementModel};
use crate::ids::{CollectionId, ImageId, TagId};
use crate::models::RegisteredModel;
use crate::path_model::{parts, path_after, within};
use crate::paths::{AbsolutePath, RelativePath};
use crate::schema::{
    create_vector_table, model_table, model_tables_are_identifiers, sanitize_model_table,
    vector_table_sql,
};
use crate::sql::{values, SqlModel, SqlValue};
use crate::text::{begins_with, ends_with, texts};
use crate::thumbnail::Thumb;
use crate::units::{EmbeddingDim, ThumbnailSpec};

verus! {

/// A statement without bound values.
pub(crate) fn plain(sql: &str) -> (r: Statement)
    ensures
        is_statement(r, sql@, Seq::empty()),
{
    let params: Vec<SqlValue> = Vec::new();
    assert(values(params@) == Seq::<SqlModel>::empty());
    Statement { sql: sql.to_owned(), params }
}

/// A statement with one bound value.
pub(crate) fn with_one(sql: &str, v: SqlValue) -> (r: Statement)
    ensures
        is_statement(r, sql@, seq![v@]),
{
    let params: Vec<SqlValue> = vec![v];
    assert(values(params@) == seq![v@]);
    Statement { sql: sql.to_owned(), params }
}

/// A statement with two bound values.
pub(crate) fn with_two(sql: &str, v: SqlValue, w: SqlValue) -> (r: Statement)
    ensures
        is_statement(r, sql@, seq![v@, w@]),
{
    let params: Vec<SqlValue> = vec![v, w];
    assert(values(params@) == seq![v@, w@]);
    Statement { sql: sql.to_owned(), params }
}

/// A statement with three bound values.
pub(crate) fn with_three(sql: &str, v: SqlValue, w: SqlValue, x: SqlValue) -> (r: Statement)
    ensures
        is_statement(r, sql@, seq![v@, w@, x@]),
{
    let params: Vec<SqlValue> = vec![v, w, x];
    assert(values(params@) == seq![v@, w@, x@]);
    Statement { sql: sql.to_owned(), params }
}

/// Whether every value is a text.
pub open spec fn all_texts(rows: Seq<SqlModel>) -> bool {
    forall|i: int| 0 <= i < rows.len() ==> (#[trigger] rows[i]) is Text
}

/// Whether every value is a number.
pub open spec fn all_integers(rows: Seq<SqlModel>) -> bool {
    forall|i: int| 0 <= i < rows.len() ==> (#[trigger] rows[i]) is Integer
}

/// Stored paths as texts.
pub open spec fn stored_texts(list: Seq<RelativePath>) -> Seq<Seq<char>> {
    list.map_values(|p: RelativePath| p.0@)
}

/// A list of names, from the one column of the rows that were found.
pub fn read_names(rows: &Vec<SqlValue>) -> (r: Result<Vec<String>, DbError>)
    ensures
        all_texts(values(rows@)) ==> r is Ok,
        !all_texts(values(rows@)) ==> r == Err::<Vec<String>, DbError>(DbError::UnexpectedValue),
        r matches Ok(list) ==> texts(list@) == values(rows@).map_values(|v: SqlModel| v->Text_0),
{
    let mut out: Vec<String> = Vec::new();
    let ghost all = values(rows@);
    let mut i: usize = 0;
    while i < rows.len()
        invariant
            i <= rows@.len(),
            all == values(rows@),
            out@.len() == i,
            forall|k: int| 0 <= k < i ==> (#[trigger] all[k]) is Text,
            forall|k: int| 0 <= k < i ==> (#[trigger] out@[k])@ == all[k]->Text_0,
        decreases rows@.len() - i,
    {
        assert(all[i as int] == rows@[i as int]@);
        match &rows[i] {
            SqlValue::Text(s) => {
                out.push(s.clone());
            },
            _ => {
                return Err(DbError::UnexpectedValue);
            },
        }
        i = i + 1;
    }
    assert(texts(out@) == all.map_values(|v: SqlModel| v->Text_0));
    Ok(out)
}

/// A list of stored paths, from the one column of the rows that were found.
pub fn read_paths(rows: &Vec<SqlValue>) -> (r: Result<Vec<RelativePath>, DbError>)
    ensures
        all_texts(values(rows@)) ==> r is Ok,
        !all_texts(values(rows@)) ==> r == Err::<Vec<RelativePath>, DbError>(
            DbError::UnexpectedValue,
        ),
        r matches Ok(list) ==> stored_texts(list@) == values(rows@).map_values(
            |v: SqlModel| v->Text_0,
        ),
{
    let names: Vec<String> = match read_names(rows) {
        Ok(names) => names,
        Err(e) => {
            return Err(e);
        },
    };
    let mut out: Vec<RelativePath> = Vec::new();
    let mut i: usize = 0;
    while i < names.len()
        invariant
            i <= names@.len(),
            out@.len() == i,
            forall|k: int| 0 <= k < i ==> (#[trigger] out@[k]).0@ == names@[k]@,
        decreases names@.len() - i,
    {
        out.push(RelativePath(names[i].clone()));
        i = i + 1;
    }
    proof {
        let want = values(rows@).map_values(|v: SqlModel| v->Text_0);
        assert(texts(names@) == want);
        assert forall|k: int| 0 <= k < out@.len() implies stored_texts(out@)[k] == want[k] by {
            assert(texts(names@)[k] == names@[k]@);
        }
        assert(stored_texts(out@) == want);
    }
    Ok(out)
}

/// A list of image ids, from the one column of the rows that were found.
pub fn read_image_ids(rows: &Vec<SqlValue>) -> (r: Result<Vec<ImageId>, DbError>)
    ensures
        all_integers(values(rows@)) ==> r is Ok,
        !all_integers(values(rows@)) ==> r == Err::<Vec<ImageId>, DbError>(
            DbError::UnexpectedValue,
        ),
        r matches Ok(list) ==> list@.map_values(|id: ImageId| SqlModel::Integer(id.0 as int))
            == values(rows@),
{
    let mut out: Vec<ImageId> = Vec::new();
    let ghost all = values(rows@);
    let mut i: usize = 0;
    while i < rows.len()
        invariant
            i <= rows@.len(),
            all == values(rows@),
            out@.len() == i,
            forall|k: int|
                0 <= k < i ==> #[trigger] all[k] == SqlModel::Integer(out@[k].0 as int),
        decreases rows@.len() - i,
    {
        assert(all[i as int] == rows@[i as int]@);
        match &rows[i] {
            SqlValue::Integer(id) => {
                out.push(ImageId(*id));
            },
            _ => {
                return Err(DbError::UnexpectedValue);
            },
        }
        i = i + 1;
    }
    assert(out@.map_values(|id: ImageId| SqlModel::Integer(id.0 as int)) == all);
    Ok(out)
}

/// An id out of the row that was looked up; `missing` where there is no row.
pub(crate) fn read_id(row: &Option<SqlValue>, missing: DbError) -> (r: Result<i64, DbError>)
    ensures
        r == found_id(*row, missing),
{
    match row {
        Some(SqlValue::Integer(id)) => Ok(*id),
        Some(_) => Err(DbError::UnexpectedValue),
        None => Err(missing),
    }
}

/// The id in a row that was looked up.
pub open spec fn found_id(row: Option<SqlValue>, missing: DbError) -> Result<i64, DbError> {
    match row {
        Some(SqlValue::Integer(id)) => Ok(id),
        Some(_) => Err(DbError::UnexpectedValue),
        None => Err(missing),
    }
}

/// The text of [`Database::list_models`].
pub open spec fn models_sql() -> Seq<char> {
    "SELECT name, dim, is_active FROM models ORDER BY name"@
}

/// The text of [`Database::list_favorites`].
pub open spec fn favorites_sql() -> Seq<char> {
    "SELECT i.path FROM favorites f JOIN images i ON i.id = f.image_id ORDER BY f.created_at DESC"@
}

/// The text of [`Database::tags_for_image`].
pub open spec fn image_tags_sql() -> Seq<char> {
    "SELECT t.name FROM image_tags it JOIN tags t ON t.id = it.tag_id WHERE it.image_id = ?1 ORDER BY t.name"@
}

/// The text of [`Database::list_tags`].
pub open spec fn tags_sql() -> Seq<char> {
    "SELECT name FROM tags ORDER BY name"@
}

/// The text of [`Database::images_by_tag`].
pub open spec fn tagged_images_sql() -> Seq<char> {
    "SELECT i.path FROM image_tags it JOIN tags t ON t.id = it.tag_id JOIN images i ON i.id = it.image_id WHERE t.name = ?1 ORDER BY i.path"@
}

/// The text of [`Database::collection_images`].
pub open spec fn collection_images_sql() -> Seq<char> {
    "SELECT i.path FROM collection_images ci JOIN collections c ON c.id = ci.collection_id JOIN images i ON i.id = ci.image_id WHERE c.name = ?1 ORDER BY i.path"@
}

/// The text of [`Database::list_collections`].
pub open spec fn collections_sql() -> Seq<char> {
    "SELECT name FROM collections ORDER BY name"@
}

/// Attaches a tag to an image; nothing changes where it is attached already.
pub open spec fn tagging(image_id: ImageId, tag_id: TagId) -> StatementModel {
    StatementModel {
        sql: "INSERT OR IGNORE INTO image_tags (image_id, tag_id) VALUES (?1, ?2)"@,
        params: seq![SqlModel::Integer(image_id.0 as int), SqlModel::Integer(tag_id.0 as int)],
    }
}

/// Takes a tag off an image.
pub open spec fn untagging(image_id: ImageId, tag: Seq<char>) -> StatementModel {
    StatementModel {
        sql: "DELETE FROM image_tags WHERE image_id = ?1 AND tag_id = (SELECT id FROM tags WHERE name = ?2)"@,
        params: seq![SqlModel::Integer(image_id.0 as int), SqlModel::Text(tag)],
    }
}

impl Database {
    /// The persisted session state: at most one row of `(state_json)`.
    pub fn get_ui_state() -> (r: Statement)
        ensures
            is_statement(r, "SELECT state_json FROM ui_state WHERE id = 1"@, Seq::empty()),
    {
        plain("SELECT state_json FROM ui_state WHERE id = 1")
    }

    /// Persists the session state as a single JSON text (UPSERT on `id = 1`).
    pub fn set_ui_state(json: &str) -> (r: Statement)
        ensures
            is_statement(r, "INSERT INTO ui_state (id, state_json, updated_at) VALUES (1, ?1, CURRENT_TIMESTAMP) ON CONFLICT(id) DO UPDATE SET state_json = ?1, updated_at = CURRENT_TIMESTAMP"@, seq![SqlModel::Text(json@)]),
    {
        with_one("INSERT INTO ui_state (id, state_json, updated_at) VALUES (1, ?1, CURRENT_TIMESTAMP) ON CONFLICT(id) DO UPDATE SET state_json = ?1, updated_at = CURRENT_TIMESTAMP", SqlValue::Text(json.to_owned()))
    }

    /// The currently active embedding model: a row of `(name, dim, table_name)`.
    pub fn active_model() -> (r: Statement)
        ensures
            is_statement(r, "SELECT name, dim, table_name FROM models WHERE is_active = 1 LIMIT 1"@, Seq::empty()),
    {
        plain("SELECT name, dim, table_name FROM models WHERE is_active = 1 LIMIT 1")
    }

    /// Register a new embedding model and create its (inactive) vector table.
    pub fn register_model(name: &str, dim: EmbeddingDim) -> (r: (Statement, Statement))
        ensures
            is_statement(
                r.0,
                "INSERT OR IGNORE INTO models (name, dim, table_name, is_active) VALUES (?1, ?2, ?3, 0)"@,
                seq![
                    SqlModel::Text(name@),
                    SqlModel::Integer((dim.0 as i64) as int),
                    SqlModel::Text(model_table(name@)),
                ],
            ),
            is_statement(r.1, vector_table_sql(model_table(name@), dim.0 as nat), Seq::empty()),
    {
        let table: String = sanitize_model_table(name);
        proof {
            model_tables_are_identifiers(name@);
        }
        let create: String = match create_vector_table(table.as_str(), dim) {
            Ok(sql) => sql,
            Err(_) => {
                assert(false);
                String::new()
            },
        };
        (
            with_three(
                "INSERT OR IGNORE INTO models (name, dim, table_name, is_active) VALUES (?1, ?2, ?3, 0)",
                SqlValue::Text(name.to_owned()),
                SqlValue::Integer(dim.get() as i64),
                SqlValue::Text(table),
            ),
            plain(create.as_str()),
        )
    }

    /// A row if a model of that name is registered.
    pub fn model_exists(name: &str) -> (r: Statement)
        ensures
            is_statement(r, "SELECT 1 FROM models WHERE name = ?1"@, seq![SqlModel::Text(name@)]),
    {
        with_one("SELECT 1 FROM models WHERE name = ?1", SqlValue::Text(name.to_owned()))
    }

    /// Flip the active model to `name`, deactivating all others; `exists` says
    /// whether it is registered.
    pub fn set_active_model(name: &str, exists: bool) -> (r: Result<Statement, DbError>)
        ensures
            exists ==> r is Ok,
            !exists ==> r == Err::<Statement, DbError>(DbError::UnknownModel),
            r matches Ok(s) ==> is_statement(
                s,
                "UPDATE models SET is_active = (name = ?1)"@,
                seq![SqlModel::Text(name@)],
            ),
    {
        if exists {
            Ok(
                with_one(
                    "UPDATE models SET is_active = (name = ?1)",
                    SqlValue::Text(name.to_owned()),
                ),
            )
        } else {
            Err(DbError::UnknownModel)
        }
    }

    /// All registered models: rows of `(name, dim, is_active)`, ordered by name.
    pub fn list_models() -> (r: Statement)
        ensures
            r.sql@ == models_sql(),
            is_statement(r, "SELECT name, dim, is_active FROM models ORDER BY name"@, Seq::empty()),
    {
        plain("SELECT name, dim, is_active FROM models ORDER BY name")
    }

    /// The `images.id` of a stored path.
    pub fn image_id_for(path: &RelativePath) -> (r: Statement)
        ensures
            is_statement(r, "SELECT id FROM images WHERE path = ?1"@, seq![SqlModel::Text(path.0@)]),
    {
        with_one("SELECT id FROM images WHERE path = ?1", SqlValue::Text(path.0.clone()))
    }

    /// The id of an image, from its row; an error if the image is not indexed.
    pub fn read_image_id(row: &Option<SqlValue>) -> (r: Result<ImageId, DbError>)
        ensures
            r == match found_id(*row, DbError::NotIndexed) {
                Ok(id) => Ok::<ImageId, DbError>(ImageId(id)),
                Err(e) => Err::<ImageId, DbError>(e),
            },
    {
        match read_id(row, DbError::NotIndexed) {
            Ok(id) => Ok(ImageId(id)),
            Err(e) => Err(e),
        }
    }

    /// The `images.id` of a file within the library.
    pub fn get_image_id(&self, path: &AbsolutePath) -> (r: Result<Statement, DbError>)
        ensures
            within(path.0@, self.parent_dir@) ==> r is Ok,
            !within(path.0@, self.parent_dir@) ==> r == Err::<Statement, DbError>(
                DbError::OutsideLibrary,
            ),
            r matches Ok(s) ==> is_statement(
                s,
                "SELECT id FROM images WHERE path = ?1"@,
                seq![SqlModel::Text(path_after(path.0@, parts(self.parent_dir@).len() as int))],
            ),
    {
        match self.stored_path(path) {
            Ok(rel) => Ok(Database::image_id_for(&rel)),
            Err(e) => Err(e),
        }
    }

    /// A row if the image is favorited.
    pub fn is_favorite(image_id: ImageId) -> (r: Statement)
        ensures
            is_statement(
                r,
                "SELECT 1 FROM favorites WHERE image_id = ?1"@,
                seq![SqlModel::Integer(image_id.0 as int)],
            ),
    {
        with_one(
            "SELECT 1 FROM favorites WHERE image_id = ?1",
            SqlValue::Integer(image_id.get()),
        )
    }

    /// The stored paths of all favorited images, most recently favorited first.
    pub fn list_favorites() -> (r: Statement)
        ensures
            r.sql@ == favorites_sql(),
            is_statement(r, "SELECT i.path FROM favorites f JOIN images i ON i.id = f.image_id ORDER BY f.created_at DESC"@, Seq::empty()),
    {
        plain("SELECT i.path FROM favorites f JOIN images i ON i.id = f.image_id ORDER BY f.created_at DESC")
    }

    /// Ensure a tag exists, then look up its id.
    pub fn create_tag(name: &str) -> (r: (Statement, Statement))
        ensures
            is_statement(
                r.0,
                "INSERT OR IGNORE INTO tags (name) VALUES (?1)"@,
                seq![SqlModel::Text(name@)],
            ),
            is_statement(
                r.1,
                "SELECT id FROM tags WHERE name = ?1"@,
                seq![SqlModel::Text(name@)],
            ),
    {
        (
            with_one(
                "INSERT OR IGNORE INTO tags (name) VALUES (?1)",
                SqlValue::Text(name.to_owned()),
            ),
            with_one("SELECT id FROM tags WHERE name = ?1", SqlValue::Text(name.to_owned())),
        )
    }

    /// The id of a tag that was just made sure of.
    pub fn read_tag_id(row: &Option<SqlValue>) -> (r: Result<TagId, DbError>)
        ensures
            r == match found_id(*row, DbError::MissingRow) {
                Ok(id) => Ok::<TagId, DbError>(TagId(id)),
                Err(e) => Err::<TagId, DbError>(e),
            },
    {
        match read_id(row, DbError::MissingRow) {
            Ok(id) => Ok(TagId(id)),
            Err(e) => Err(e),
        }
    }

    /// Attach a tag to an image.
    pub fn tag_image(image_id: ImageId, tag_id: TagId) -> (r: Statement)
        ensures
            r@ == tagging(image_id, tag_id),
    {
        let s: Statement = with_two(
            "INSERT OR IGNORE INTO image_tags (image_id, tag_id) VALUES (?1, ?2)",
            SqlValue::Integer(image_id.get()),
            SqlValue::Integer(tag_id.get()),
        );
        assert(s@ == tagging(image_id, tag_id));
        s
    }

    /// Remove `tag` from an image.
    pub fn untag_image(image_id: ImageId, tag: &str) -> (r: Statement)
        ensures
            r@ == untagging(image_id, tag@),
    {
        let s: Statement = with_two(
            "DELETE FROM image_tags WHERE image_id = ?1 AND tag_id = (SELECT id FROM tags WHERE name = ?2)",
            SqlValue::Integer(image_id.get()),
            SqlValue::Text(tag.to_owned()),
        );
        assert(s@ == untagging(image_id, tag@));
        s
    }

    /// Attach a tag to every image of a list, to be written in one
    /// transaction.
    pub fn batch_tag_images(ids: &Vec<ImageId>, tag_id: TagId) -> (r: Vec<Statement>)
        ensures
            r@.len() == ids@.len(),
            forall|i: int| 0 <= i < r@.len() ==> (#[trigger] r@[i])@ == tagging(ids@[i], tag_id),
    {
        let mut out: Vec<Statement> = Vec::new();
        let mut i: usize = 0;
        while i < ids.len()
            invariant
                i <= ids@.len(),
                out@.len() == i,
                forall|k: int| 0 <= k < i ==> (#[trigger] out@[k])@ == tagging(ids@[k], tag_id),
            decreases ids@.len() - i,
        {
            out.push(Database::tag_image(ids[i], tag_id));
            i = i + 1;
        }
        out
    }

    /// Remove `tag` from every image of a list, to be written in one
    /// transaction.
    pub fn batch_untag_images(ids: &Vec<ImageId>, tag: &str) -> (r: Vec<Statement>)
        ensures
            r@.len() == ids@.len(),
            forall|i: int| 0 <= i < r@.len() ==> (#[trigger] r@[i])@ == untagging(ids@[i], tag@),
    {
        let mut out: Vec<Statement> = Vec::new();
        let mut i: usize = 0;
        while i < ids.len()
            invariant
                i <= ids@.len(),
                out@.len() == i,
                forall|k: int| 0 <= k < i ==> (#[trigger] out@[k])@ == untagging(ids@[k], tag@),
            decreases ids@.len() - i,
        {
            out.push(Database::untag_image(ids[i], tag));
            i = i + 1;
        }
        out
    }

    /// The tags attached to an image, alphabetically.
    pub fn tags_for_image(image_id: ImageId) -> (r: Statement)
        ensures
            r.sql@ == image_tags_sql(),
            is_statement(
                r,
                "SELECT t.name FROM image_tags it JOIN tags t ON t.id = it.tag_id WHERE it.image_id = ?1 ORDER BY t.name"@,
                seq![SqlModel::Integer(image_id.0 as int)],
            ),
    {
        with_one(
            "SELECT t.name FROM image_tags it JOIN tags t ON t.id = it.tag_id WHERE it.image_id = ?1 ORDER BY t.name",
            SqlValue::Integer(image_id.get()),
        )
    }

    /// All tag names, alphabetically.
    pub fn list_tags() -> (r: Statement)
        ensures
            r.sql@ == tags_sql(),
            is_statement(r, "SELECT name FROM tags ORDER BY name"@, Seq::empty()),
    {
        plain("SELECT name FROM tags ORDER BY name")
    }

    /// The stored paths of images carrying a tag, ordered by path.
    pub fn images_by_tag(name: &str) -> (r: Statement)
        ensures
            r.sql@ == tagged_images_sql(),
            is_statement(r, "SELECT i.path FROM image_tags it JOIN tags t ON t.id = it.tag_id JOIN images i ON i.id = it.image_id WHERE t.name = ?1 ORDER BY i.path"@, seq![SqlModel::Text(name@)]),
    {
        with_one("SELECT i.path FROM image_tags it JOIN tags t ON t.id = it.tag_id JOIN images i ON i.id = it.image_id WHERE t.name = ?1 ORDER BY i.path", SqlValue::Text(name.to_owned()))
    }

    /// Ensure a collection exists, then look up its id.
    pub fn create_collection(name: &str) -> (r: (Statement, Statement))
        ensures
            is_statement(
                r.0,
                "INSERT OR IGNORE INTO collections (name) VALUES (?1)"@,
                seq![SqlModel::Text(name@)],
            ),
            is_statement(
                r.1,
                "SELECT id FROM collections WHERE name = ?1"@,
                seq![SqlModel::Text(name@)],
            ),
    {
        (
            with_one(
                "INSERT OR IGNORE INTO collections (name) VALUES (?1)",
                SqlValue::Text(name.to_owned()),
            ),
            with_one(
                "SELECT id FROM collections WHERE name = ?1",
                SqlValue::Text(name.to_owned()),
            ),
        )
    }

    /// The id of a collection that was just made sure of.
    pub fn read_collection_id(row: &Option<SqlValue>) -> (r: Result<CollectionId, DbError>)
        ensures
            r == match found_id(*row, DbError::MissingRow) {
                Ok(id) => Ok::<CollectionId, DbError>(CollectionId(id)),
                Err(e) => Err::<CollectionId, DbError>(e),
            },
    {
        match read_id(row, DbError::MissingRow) {
            Ok(id) => Ok(CollectionId(id)),
            Err(e) => Err(e),
        }
    }

    /// Add an image to a collection.
    pub fn add_to_collection(collection_id: CollectionId, image_id: ImageId) -> (r: Statement)
        ensures
            is_statement(
                r,
                "INSERT OR IGNORE INTO collection_images (collection_id, image_id) VALUES (?1, ?2)"@,
                seq![
                    SqlModel::Integer(collection_id.0 as int),
                    SqlModel::Integer(image_id.0 as int),
                ],
            ),
    {
        with_two(
            "INSERT OR IGNORE INTO collection_images (collection_id, image_id) VALUES (?1, ?2)",
            SqlValue::Integer(collection_id.get()),
            SqlValue::Integer(image_id.get()),
        )
    }

    /// Remove an image from the collection `name`.
    pub fn remove_from_collection(name: &str, image_id: ImageId) -> (r: Statement)
        ensures
            is_statement(
                r,
                "DELETE FROM collection_images WHERE image_id = ?1 AND collection_id = (SELECT id FROM collections WHERE name = ?2)"@,
                seq![SqlModel::Integer(image_id.0 as int), SqlModel::Text(name@)],
            ),
    {
        with_two(
            "DELETE FROM collection_images WHERE image_id = ?1 AND collection_id = (SELECT id FROM collections WHERE name = ?2)",
            SqlValue::Integer(image_id.get()),
            SqlValue::Text(name.to_owned()),
        )
    }

    /// The stored paths of images in a collection, ordered by path.
    pub fn collection_images(name: &str) -> (r: Statement)
        ensures
            r.sql@ == collection_images_sql(),
            is_statement(r, "SELECT i.path FROM collection_images ci JOIN collections c ON c.id = ci.collection_id JOIN images i ON i.id = ci.image_id WHERE c.name = ?1 ORDER BY i.path"@, seq![SqlModel::Text(name@)]),
    {
        with_one("SELECT i.path FROM collection_images ci JOIN collections c ON c.id = ci.collection_id JOIN images i ON i.id = ci.image_id WHERE c.name = ?1 ORDER BY i.path", SqlValue::Text(name.to_owned()))
    }

    /// All collection names, alphabetically.
    pub fn list_collections() -> (r: Statement)
        ensures
            r.sql@ == collections_sql(),
            is_statement(r, "SELECT name FROM collections ORDER BY name"@, Seq::empty()),
    {
        plain("SELECT name FROM collections ORDER BY name")
    }

    /// How many images are indexed.
    pub fn get_image_count() -> (r: Statement)
        ensures
            is_statement(r, "SELECT COUNT(*) FROM images"@, Seq::empty()),
    {
        plain("SELECT COUNT(*) FROM images")
    }

    /// The hash of an image by its stored path.
    pub fn get_image_hash(path: &RelativePath) -> (r: Statement)
        ensures
            is_statement(r, "SELECT hash FROM images WHERE path = ?1"@, seq![SqlModel::Text(path.0@)]),
    {
        with_one("SELECT hash FROM images WHERE path = ?1", SqlValue::Text(path.0.clone()))
    }

    /// The distinct thumbnail sizes stored for an image.
    pub fn get_thumbnail_sizes(image_hash: &str) -> (r: Statement)
        ensures
            is_statement(r, "SELECT DISTINCT size FROM thumbnails WHERE image_hash = ?1"@, seq![SqlModel::Text(image_hash@)]),
    {
        with_one("SELECT DISTINCT size FROM thumbnails WHERE image_hash = ?1", SqlValue::Text(image_hash.to_owned()))
    }

    /// The stored edits of an image: at most one row of `(exposure, saturation, blacks, whites, brightness, contrast)`.
    pub fn get_image_edits(path: &RelativePath) -> (r: Statement)
        ensures
            is_statement(r, "SELECT e.exposure, e.saturation, e.blacks, e.whites, e.brightness, e.contrast FROM image_edits e JOIN images i ON i.id = e.image_id WHERE i.path = ?1"@, seq![SqlModel::Text(path.0@)]),
    {
        with_one("SELECT e.exposure, e.saturation, e.blacks, e.whites, e.brightness, e.contrast FROM image_edits e JOIN images i ON i.id = e.image_id WHERE i.path = ?1", SqlValue::Text(path.0.clone()))
    }
}

/// A row of the `models` table that stands for a model.
pub open spec fn model_row(row: (SqlValue, SqlValue, SqlValue)) -> bool {
    row.0 is Text && row.1 is Integer
}

impl Database {
    /// The active model, from its row.
    pub fn read_active_model(row: &Option<(SqlValue, SqlValue, SqlValue)>) -> (r: Result<
        ModelInfo,
        DbError,
    >)
        ensures
            *row is None ==> r == Err::<ModelInfo, DbError>(DbError::MissingRow),
            *row matches Some(t) ==> {
                &&& model_row(t) && t.2 is Text ==> r is Ok
                &&& !(model_row(t) && t.2 is Text) ==> r == Err::<ModelInfo, DbError>(
                    DbError::UnexpectedValue,
                )
            },
            r matches Ok(m) ==> (*row matches Some(t) && {
                &&& SqlModel::Text(m.name@) == t.0@
                &&& m.dim.0 == t.1->Integer_0 as usize
                &&& SqlModel::Text(m.table@) == t.2@
            }),
    {
        match row {
            Some((SqlValue::Text(name), SqlValue::Integer(dim), SqlValue::Text(table))) => Ok(
                ModelInfo {
                    name: name.clone(),
                    dim: EmbeddingDim(*dim as usize),
                    table: table.clone(),
                },
            ),
            Some(_) => Err(DbError::UnexpectedValue),
            None => Err(DbError::MissingRow),
        }
    }

    /// The registered models, from their rows.
    pub fn read_models(rows: &Vec<(SqlValue, SqlValue, SqlValue)>) -> (r: Result<
        Vec<RegisteredModel>,
        DbError,
    >)
        ensures
            (forall|i: int| 0 <= i < rows@.len() ==> model_row(#[trigger] rows@[i]) && rows@[i].2 is Integer)
                <==> r is Ok,
            r matches Err(e) ==> e == DbError::UnexpectedValue,
            r matches Ok(list) ==> list@.len() == rows@.len() && forall|i: int|
                0 <= i < list@.len() ==> {
                    &&& SqlModel::Text((#[trigger] list@[i]).name@) == rows@[i].0@
                    &&& list@[i].dim.0 == rows@[i].1->Integer_0 as usize
                    &&& list@[i].active == (rows@[i].2->Integer_0 != 0)
                },
    {
        let mut out: Vec<RegisteredModel> = Vec::new();
        let mut i: usize = 0;
        while i < rows.len()
            invariant
                i <= rows@.len(),
                out@.len() == i,
                forall|k: int| 0 <= k < i ==> model_row(#[trigger] rows@[k]) && rows@[k].2 is Integer,
                forall|k: int|
                    0 <= k < i ==> {
                        &&& SqlModel::Text((#[trigger] out@[k]).name@) == rows@[k].0@
                        &&& out@[k].dim.0 == rows@[k].1->Integer_0 as usize
                        &&& out@[k].active == (rows@[k].2->Integer_0 != 0)
                    },
            decreases rows@.len() - i,
        {
            match &rows[i] {
                (SqlValue::Text(name), SqlValue::Integer(dim), SqlValue::Integer(active)) => {
                    out.push(
                        RegisteredModel {
                            name: name.clone(),
                            dim: EmbeddingDim(*dim as usize),
                            active: *active != 0,
                        },
                    );
                },
                _ => {
                    assert(!(model_row(rows@[i as int]) && rows@[i as int].2 is Integer));
                    return Err(DbError::UnexpectedValue);
                },
            }
            i = i + 1;
        }
        Ok(out)
    }
}

/// Stores a thumbnail, in place of the one there was.
pub open spec fn storing(hash: Seq<char>, size: u32, data: Seq<u8>) -> StatementModel {
    StatementModel {
        sql: "INSERT OR REPLACE INTO thumbnails (image_hash, size, thumbnail_data) VALUES (?1, ?2, ?3)"@,
        params: seq![SqlModel::Text(hash), SqlModel::Integer(size as int), SqlModel::Blob(data)],
    }
}

impl Database {
    /// Insert a thumbnail into the database cache, in place of the one there
    /// was. The full-size rendition is stored under `size = 0`.
    pub fn insert_thumbnail(image_hash: &str, spec: ThumbnailSpec, thumbnail_data: Vec<u8>) -> (r:
        Statement)
        ensures
            r@ == storing(image_hash@, spec.db_size(), thumbnail_data@),
    {
        let s: Statement = with_three(
            "INSERT OR REPLACE INTO thumbnails (image_hash, size, thumbnail_data) VALUES (?1, ?2, ?3)",
            SqlValue::Text(image_hash.to_owned()),
            SqlValue::Integer(spec.to_db_size() as i64),
            SqlValue::Blob(thumbnail_data),
        );
        assert(s@ == storing(image_hash@, spec.db_size(), thumbnail_data@));
        s
    }

    /// Insert many thumbnails, to be written in one transaction. Existing
    /// `(image_hash, size)` rows are replaced.
    pub fn insert_thumbnails_batch(items: Vec<Thumb>) -> (r: Vec<Statement>)
        ensures
            r@.len() == items@.len(),
            forall|i: int|
                0 <= i < r@.len() ==> (#[trigger] r@[i])@ == storing(
                    items@[i].hash@,
                    items@[i].size,
                    items@[i].data@,
                ),
    {
        let mut out: Vec<Statement> = Vec::new();
        let mut i: usize = 0;
        while i < items.len()
            invariant
                i <= items@.len(),
                out@.len() == i,
                forall|k: int|
                    0 <= k < i ==> (#[trigger] out@[k])@ == storing(
                        items@[k].hash@,
                        items@[k].size,
                        items@[k].data@,
                    ),
            decreases items@.len() - i,
        {
            let t: &Thumb = &items[i];
            let s: Statement = with_three(
                "INSERT OR REPLACE INTO thumbnails (image_hash, size, thumbnail_data) VALUES (?1, ?2, ?3)",
                SqlValue::Text(t.hash.clone()),
                SqlValue::Integer(t.size as i64),
                SqlValue::Blob(t.data.clone()),
            );
            assert(s@ == storing(t.hash@, t.size, t.data@));
            out.push(s);
            i = i + 1;
        }
        out
    }

    /// A thumbnail of the database cache: at most one row of
    /// `(thumbnail_data)`. The full-size rendition is looked up under
    /// `size = 0`.
    pub fn get_thumbnail(image_hash: &str, spec: ThumbnailSpec) -> (r: Statement)
        ensures
            is_statement(
                r,
                "SELECT thumbnail_data FROM thumbnails WHERE image_hash = ?1 AND size = ?2"@,
                seq![SqlModel::Text(image_hash@), SqlModel::Integer(spec.db_size() as int)],
            ),
    {
        with_two(
            "SELECT thumbnail_data FROM thumbnails WHERE image_hash = ?1 AND size = ?2",
            SqlValue::Text(image_hash.to_owned()),
            SqlValue::Integer(spec.to_db_size() as i64),
        )
    }

    /// A blob, from the row that was looked up.
    pub fn read_blob(row: Option<SqlValue>) -> (r: Result<Vec<u8>, DbError>)
        ensures
            match row {
                Some(SqlValue::Blob(b)) => r == Ok::<Vec<u8>, DbError>(b),
                Some(_) => r == Err::<Vec<u8>, DbError>(DbError::UnexpectedValue),
                None => r == Err::<Vec<u8>, DbError>(DbError::MissingRow),
            },
    {
        match row {
            Some(SqlValue::Blob(b)) => Ok(b),
            Some(_) => Err(DbError::UnexpectedValue),
            None => Err(DbError::MissingRow),
        }
    }

    /// Record that an image's thumbnail of a size cannot be generated.
    pub fn insert_thumbnail_failure(image_hash: &str, size: u32, error: &str) -> (r: Statement)
        ensures
            is_statement(
                r,
                "INSERT OR REPLACE INTO thumbnail_failures (image_hash, size, error) VALUES (?1, ?2, ?3)"@,
                seq![
                    SqlModel::Text(image_hash@),
                    SqlModel::Integer(size as int),
                    SqlModel::Text(error@),
                ],
            ),
    {
        with_three(
            "INSERT OR REPLACE INTO thumbnail_failures (image_hash, size, error) VALUES (?1, ?2, ?3)",
            SqlValue::Text(image_hash.to_owned()),
            SqlValue::Integer(size as i64),
            SqlValue::Text(error.to_owned()),
        )
    }

    /// How many failure markers an image has.
    pub fn thumbnail_failure_count(image_hash: &str) -> (r: Statement)
        ensures
            is_statement(
                r,
                "SELECT COUNT(*) FROM thumbnail_failures WHERE image_hash = ?1"@,
                seq![SqlModel::Text(image_hash@)],
            ),
    {
        with_one(
            "SELECT COUNT(*) FROM thumbnail_failures WHERE image_hash = ?1",
            SqlValue::Text(image_hash.to_owned()),
        )
    }
}

/// Tagging and untagging name the image first and the tag second.
pub proof fn tags_go_to_their_image(image_id: ImageId, tag_id: TagId, tag: Seq<char>)
    ensures
        tagging(image_id, tag_id).params.len() == 2,
        tagging(image_id, tag_id).params[0] == SqlModel::Integer(image_id.0 as int),
        tagging(image_id, tag_id).params[1] == SqlModel::Integer(tag_id.0 as int),
        untagging(image_id, tag).params.len() == 2,
        untagging(image_id, tag).params[0] == SqlModel::Integer(image_id.0 as int),
        untagging(image_id, tag).params[1] == SqlModel::Text(tag),
{
}

/// A thumbnail is stored under the hash of its image and its size, byte for
/// byte, so that two renditions of an image never share a row.
pub proof fn thumbnails_are_stored_under_hash_and_size(
    hash: Seq<char>,
    a: u32,
    b: u32,
    data: Seq<u8>,
    more: Seq<u8>,
)
    ensures
        storing(hash, a, data).params == seq![
            SqlModel::Text(hash),
            SqlModel::Integer(a as int),
            SqlModel::Blob(data),
        ],
        storing(hash, a, data).sql == storing(hash, b, more).sql,
        a != b ==> storing(hash, a, data).params[1] != storing(hash, b, more).params[1],
{
}

/// An id is found only in a row that holds a number; a row of another kind
/// and a missing row are told apart.
pub proof fn ids_are_numbers(row: Option<SqlValue>, missing: DbError, id: i64)
    ensures
        found_id(row, missing) == Ok::<i64, DbError>(id) <==> row == Some(SqlValue::Integer(id)),
        row is None ==> found_id(row, missing) == Err::<i64, DbError>(missing),
        row is Some && !(row->0 is Integer) ==> found_id(row, missing) == Err::<i64, DbError>(
            DbError::UnexpectedValue,
        ),
{
}

/// Lists come in their order: favorites with the latest first; models, tags
/// and collections by name; and the images of a tag or a collection, and the
/// tags of an image, exactly those asked for, by path or name.
pub proof fn lists_come_in_their_order()
    ensures
        begins_with(models_sql(), "SELECT name, dim, is_active FROM models"@),
        ends_with(models_sql(), " ORDER BY name"@),
        begins_with(favorites_sql(), "SELECT i.path FROM favorites f"@),
        ends_with(favorites_sql(), " ORDER BY f.created_at DESC"@),
        begins_with(image_tags_sql(), "SELECT t.name FROM image_tags it"@),
        ends_with(image_tags_sql(), " WHERE it.image_id = ?1 ORDER BY t.name"@),
        begins_with(tags_sql(), "SELECT name FROM tags"@),
        ends_with(tags_sql(), " ORDER BY name"@),
        begins_with(tagged_images_sql(), "SELECT i.path FROM image_tags it"@),
        ends_with(tagged_images_sql(), " WHERE t.name = ?1 ORDER BY i.path"@),
        begins_with(collection_images_sql(), "SELECT i.path FROM collection_images ci"@),
        ends_with(collection_images_sql(), " WHERE c.name = ?1 ORDER BY i.path"@),
        begins_with(collections_sql(), "SELECT name FROM collections"@),
        ends_with(collections_sql(), " ORDER BY name"@),
{
    reveal_strlit("SELECT name, dim, is_active FROM models ORDER BY name");
    reveal_strlit("SELECT name, dim, is_active FROM models");
    reveal_strlit(" ORDER BY name");
    reveal_strlit(
        "SELECT i.path FROM favorites f JOIN images i ON i.id = f.image_id ORDER BY f.created_at DESC",
    );
    reveal_strlit("SELECT i.path FROM favorites f");
    reveal_strlit(" ORDER BY f.created_at DESC");
    reveal_strlit(
        "SELECT t.name FROM image_tags it JOIN tags t ON t.id = it.tag_id WHERE it.image_id = ?1 ORDER BY t.name",
    );
    reveal_strlit("SELECT t.name FROM image_tags it");
    reveal_strlit(" WHERE it.image_id = ?1 ORDER BY t.name");
    reveal_strlit("SELECT name FROM tags ORDER BY name");
    reveal_strlit("SELECT name FROM tags");
    reveal_strlit(
        "SELECT i.path FROM image_tags it JOIN tags t ON t.id = it.tag_id JOIN images i ON i.id = it.image_id WHERE t.name = ?1 ORDER BY i.path",
    );
    reveal_strlit("SELECT i.path FROM image_tags it");
    reveal_strlit(" WHERE t.name = ?1 ORDER BY i.path");
    reveal_strlit(
        "SELECT i.path FROM collection_images ci JOIN collections c ON c.id = ci.collection_id JOIN images i ON i.id = ci.image_id WHERE c.name = ?1 ORDER BY i.path",
    );
    reveal_strlit("SELECT i.path FROM collection_images ci");
    reveal_strlit(" WHERE c.name = ?1 ORDER BY i.path");
    reveal_strlit("SELECT name FROM collections ORDER BY name");
    reveal_strlit("SELECT name FROM collections");
    assert(models_sql().take(39) == "SELECT name, dim, is_active FROM models"@);
    assert(models_sql().skip(39) == " ORDER BY name"@);
    assert(favorites_sql().take(30) == "SELECT i.path FROM favorites f"@);
    assert(favorites_sql().skip(65) == " ORDER BY f.created_at DESC"@);
    assert(image_tags_sql().take(32) == "SELECT t.name FROM image_tags it"@);
    assert(image_tags_sql().skip(64) == " WHERE it.image_id = ?1 ORDER BY t.name"@);
    assert(tags_sql().take(21) == "SELECT name FROM tags"@);
    assert(tags_sql().skip(21) == " ORDER BY name"@);
    assert(tagged_images_sql().take(32) == "SELECT i.path FROM image_tags it"@);
    assert(tagged_images_sql().skip(100) == " WHERE t.name = ?1 ORDER BY i.path"@);
    assert(collection_images_sql().take(39) == "SELECT i.path FROM collection_images ci"@);
    assert(collection_images_sql().skip(121) == " WHERE c.name = ?1 ORDER BY i.path"@);
    assert(collections_sql().take(28) == "SELECT name FROM collections"@);
    assert(collections_sql().skip(28) == " ORDER BY name"@);
}

} // verus!
