//! The library's statements on a real database, held in memory.

use imgfind::database::{row_meta, Database, DbError, ModelInfo, Statement};
use imgfind::filters::{Filters, GpsFilter, TagFilter, TagMatch};
use imgfind::ids::ImageId;
use imgfind::image_rows::{ImageRow, InsertStep};
use imgfind::indexing::IndexRow;
use imgfind::migrate::{
    outcome, write_turso, EmbeddingTable, IdName, IdPair, LegacyData, LegacyEmbedding,
    LegacyFavorite, LegacyImage, LegacyModel, LegacyThumbnail, MetadataRow, MigrateOutcome,
    MigrateStep,
};
use imgfind::paths::{AbsolutePath, RelativePath};
use imgfind::records::{read_image_ids, read_names, read_paths};
use imgfind::schema::{
    current_version, run_migrations, version_stamp, LATEST_MIGRATION_VERSION, VERSION_TABLE,
};
use imgfind::sort::{RowMeta, Sort, SortDir, SortKey};
use imgfind::sql::{col_i64, SqlValue};
use imgfind::stored_metadata::StoredMetadata;
use imgfind::thumbnail::Thumb;
use imgfind::units::{EmbeddingDim, FileSize, MaxK, ThumbnailSize, ThumbnailSpec};
use imgfind::vector_sql::knn_query;
use turso::Value;

struct Store {
    runtime: tokio::runtime::Runtime,
    conn: turso::Connection,
    library: Database,
}

fn bound(v: &SqlValue) -> Value {
    match v {
        SqlValue::Null => Value::Null,
        SqlValue::Integer(i) => Value::Integer(*i),
        SqlValue::Real(bits) => Value::Real(f64::from_bits(*bits)),
        SqlValue::Text(s) => Value::Text(s.clone()),
        SqlValue::Blob(b) => Value::Blob(b.clone()),
    }
}

fn found(v: Value) -> SqlValue {
    match v {
        Value::Null => SqlValue::Null,
        Value::Integer(i) => SqlValue::Integer(i),
        Value::Real(r) => SqlValue::Real(r.to_bits()),
        Value::Text(s) => SqlValue::Text(s),
        Value::Blob(b) => SqlValue::Blob(b),
    }
}

fn text(s: &str) -> SqlValue {
    SqlValue::Text(s.to_string())
}

fn rel(s: &str) -> RelativePath {
    RelativePath(s.to_string())
}

fn bytes(v: &[f32]) -> Vec<u8> {
    v.iter().flat_map(|f| f.to_le_bytes()).collect()
}

/// A 512-dimensional vector with the given first two components.
fn vector(x: f32, y: f32) -> Vec<u8> {
    let mut v = vec![0.0f32; 512];
    v[0] = x;
    v[1] = y;
    bytes(&v)
}

impl Store {
    fn new() -> Store {
        let runtime = tokio::runtime::Builder::new_current_thread().build().unwrap();
        let conn = runtime.block_on(async {
            let db = turso::Builder::new_local(":memory:").build().await.unwrap();
            db.connect().unwrap()
        });
        let store = Store {
            runtime,
            conn,
            library: Database {
                parent_dir: "/lib".to_string(),
            },
        };
        store.migrate();
        store
    }

    fn migrate(&self) {
        self.sql(VERSION_TABLE);
        let row = self.ask("SELECT version FROM schema_meta LIMIT 1", &[]).pop();
        let (version, seed) = current_version(row.map(|mut r| r.remove(0)));
        if let Some(seed) = seed {
            self.sql(seed);
        }
        for sql in run_migrations(version, &vec![]) {
            self.sql(&sql);
        }
        if let Some(stamp) = version_stamp(version) {
            self.run(&stamp);
        }
    }

    fn sql(&self, sql: &str) {
        self.exec(sql, &[]);
    }

    fn exec(&self, sql: &str, params: &[SqlValue]) {
        let params: Vec<Value> = params.iter().map(bound).collect();
        self.runtime
            .block_on(self.conn.execute(sql, turso::params_from_iter(params)))
            .unwrap();
    }

    fn ask(&self, sql: &str, params: &[SqlValue]) -> Vec<Vec<SqlValue>> {
        let params: Vec<Value> = params.iter().map(bound).collect();
        self.runtime.block_on(async {
            let mut rows = self.conn.query(sql, turso::params_from_iter(params)).await.unwrap();
            let mut out = Vec::new();
            while let Some(row) = rows.next().await.unwrap() {
                let mut cells = Vec::new();
                for i in 0..row.column_count() {
                    cells.push(found(row.get_value(i).unwrap()));
                }
                out.push(cells);
            }
            out
        })
    }

    fn run(&self, s: &Statement) {
        self.exec(&s.sql, &s.params);
    }

    fn rows(&self, s: &Statement) -> Vec<Vec<SqlValue>> {
        self.ask(&s.sql, &s.params)
    }

    /// The one column of the rows found.
    fn column(&self, s: &Statement) -> Vec<SqlValue> {
        self.rows(s).into_iter().map(|mut r| r.remove(0)).collect()
    }

    fn first(&self, s: &Statement) -> Option<SqlValue> {
        self.column(s).into_iter().next()
    }

    fn count(&self, sql: &str) -> i64 {
        col_i64(&self.ask(sql, &[])[0][0]).unwrap()
    }

    fn image(&self, id: i64, path: &str, size: Option<i64>) {
        self.exec(
            "INSERT INTO images (id, path, hash) VALUES (?1, ?2, ?3)",
            &[SqlValue::Integer(id), text(path), text(&format!("h{id}"))],
        );
        self.exec(
            "INSERT INTO image_metadata (image_id, file_size) VALUES (?1, ?2)",
            &[
                SqlValue::Integer(id),
                size.map_or(SqlValue::Null, SqlValue::Integer),
            ],
        );
    }

    fn with_rows(rows: &[(&str, Option<i64>)]) -> Store {
        let store = Store::new();
        for (i, (path, size)) in rows.iter().enumerate() {
            store.image(i as i64 + 1, path, *size);
        }
        store
    }

    fn with_images(paths: &[&str]) -> Store {
        let rows: Vec<(&str, Option<i64>)> = paths.iter().map(|p| (*p, None)).collect();
        Store::with_rows(&rows)
    }

    fn id_of(&self, path: &str) -> ImageId {
        Database::read_image_id(&self.first(&Database::image_id_for(&rel(path)))).unwrap()
    }

    fn tag(&self, path: &str, tag: &str) {
        let (write, find) = Database::create_tag(tag);
        self.run(&write);
        let tag_id = Database::read_tag_id(&self.first(&find)).unwrap();
        self.run(&Database::tag_image(self.id_of(path), tag_id));
    }

    fn tags(&self, path: &str) -> Vec<String> {
        read_names(&self.column(&Database::tags_for_image(self.id_of(path)))).unwrap()
    }

    fn listing(&self, s: &Statement) -> Vec<RowMeta> {
        self.rows(s)
            .into_iter()
            .map(|mut r| {
                let size = col_i64(&r[2]);
                let path = match r.remove(1) {
                    SqlValue::Text(p) => p,
                    other => panic!("{other:?}"),
                };
                row_meta(col_i64(&r[0]).unwrap(), path, size)
            })
            .collect()
    }

    fn browse_all(&self, f: &Filters, key: SortKey, dir: SortDir) -> Vec<String> {
        self.listing(&Database::browse_all(f, &Sort { key, dir }))
            .into_iter()
            .map(|r| r.path)
            .collect()
    }

    fn active_model(&self) -> ModelInfo {
        let mut row = self.rows(&Database::active_model()).remove(0);
        let table = row.remove(2);
        let dim = row.remove(1);
        let name = row.remove(0);
        Database::read_active_model(&Some((name, dim, table))).unwrap()
    }

    fn active_table(&self) -> String {
        Database::vectors_table(&self.active_model().table).unwrap()
    }

    fn insert_images_batch(&self, rows: Vec<ImageRow>) {
        let vt = self.active_table();
        let mut step = Database::insert_images_batch(rows.len());
        loop {
            let found = match Database::insert_statement(step, &rows, &vt) {
                Some(s) if matches!(step, InsertStep::FindId(_)) => self.first(&s),
                Some(s) => {
                    self.run(&s);
                    None
                }
                None => match step {
                    InsertStep::Commit => None,
                    InsertStep::Done => return,
                    other => panic!("{other:?}"),
                },
            };
            step = Database::after_insert_step(step, &found, rows.len());
        }
    }

    fn is_indexed(&self, path: &AbsolutePath, hash: &str) -> bool {
        let s = self
            .library
            .is_image_indexed(&self.active_table(), path, hash)
            .unwrap();
        col_i64(&self.first(&s).unwrap()).unwrap() > 0
    }

    fn use_model(&self, name: &str) {
        let exists = self.first(&Database::model_exists(name)).is_some();
        self.run(&Database::set_active_model(name, exists).unwrap());
    }

    fn register(&self, name: &str, dim: usize) {
        let (row, table) = Database::register_model(name, EmbeddingDim(dim));
        self.run(&row);
        self.run(&table);
    }
}

#[test]
fn get_image_metadata_reads_stored_row_without_decoding() {
    let s = Store::new();
    s.sql("INSERT INTO images (id, path, hash) VALUES (1, 'a.jpg', 'h')");
    let stored = StoredMetadata {
        file_size: Some(4096),
        width: Some(800),
        height: Some(600),
        coords: Some((12.5f64.to_bits(), (-77.25f64).to_bits())),
        camera_make: Some("Canon".to_string()),
        camera_model: Some("R5".to_string()),
        datetime_taken: Some("2026:06:20 12:00:00".to_string()),
    };
    s.run(&Database::insert_or_update_metadata(ImageId(1), &stored));
    let read = |path: &str| {
        let row = s.rows(&Database::get_image_metadata(&rel(path))).pop()?;
        let coords = match (&row[3], &row[4]) {
            (SqlValue::Real(a), SqlValue::Real(b)) => Some((*a, *b)),
            _ => None,
        };
        Some(Database::read_metadata(&row, coords))
    };
    assert_eq!(read("a.jpg"), Some(stored));
    // An image without a metadata row, and an unknown path.
    s.sql("INSERT INTO images (id, path, hash) VALUES (2, 'b.jpg', 'h2')");
    assert!(read("b.jpg").is_none());
    assert!(read("nope.jpg").is_none());
    // Latitude without longitude is no position.
    s.sql("INSERT INTO images (id, path, hash) VALUES (3, 'c.jpg', 'h3')");
    s.sql("INSERT INTO image_metadata (image_id, latitude) VALUES (3, 12.5)");
    assert_eq!(read("c.jpg").unwrap().coords, None);
    // Sizes beyond the signed range come back as they were.
    let huge = StoredMetadata {
        file_size: Some(u64::MAX),
        width: Some(u32::MAX),
        height: None,
        coords: None,
        camera_make: None,
        camera_model: None,
        datetime_taken: None,
    };
    s.run(&Database::insert_or_update_metadata(ImageId(1), &huge));
    let row = s.rows(&Database::get_image_metadata(&rel("a.jpg"))).remove(0);
    assert_eq!(Database::read_metadata(&row, None), huge);
}

#[test]
fn toggle_favorite_flips_state() {
    let s = Store::with_images(&["a.jpg"]);
    let id = s.id_of("a.jpg");
    let is_favorite = || s.first(&Database::is_favorite(id)).is_some();
    assert!(!is_favorite());
    let (flip, now) = Database::toggle_favorite(id, is_favorite());
    s.run(&flip);
    assert!(now && is_favorite());
    assert_eq!(
        read_paths(&s.column(&Database::list_favorites())).unwrap(),
        vec![rel("a.jpg")]
    );
    let (flip, now) = Database::toggle_favorite(id, is_favorite());
    s.run(&flip);
    assert!(!now && !is_favorite());
}

#[test]
fn tag_and_collection_roundtrip() {
    let s = Store::with_images(&["a.jpg"]);
    s.tag("a.jpg", "cats");
    assert_eq!(s.tags("a.jpg"), vec!["cats".to_string()]);
    assert_eq!(
        read_paths(&s.column(&Database::images_by_tag("cats"))).unwrap(),
        vec![rel("a.jpg")]
    );
    s.run(&Database::untag_image(s.id_of("a.jpg"), "cats"));
    assert!(s.tags("a.jpg").is_empty());
    let (write, find) = Database::create_collection("trip");
    s.run(&write);
    let trip = Database::read_collection_id(&s.first(&find)).unwrap();
    s.run(&Database::add_to_collection(trip, s.id_of("a.jpg")));
    assert_eq!(
        read_paths(&s.column(&Database::collection_images("trip"))).unwrap(),
        vec![rel("a.jpg")]
    );
    assert_eq!(
        read_names(&s.column(&Database::list_collections())).unwrap(),
        vec!["trip".to_string()]
    );
    s.run(&Database::remove_from_collection("trip", s.id_of("a.jpg")));
    assert!(s.column(&Database::collection_images("trip")).is_empty());
    assert_eq!(
        read_names(&s.column(&Database::list_tags())).unwrap(),
        vec!["cats".to_string()]
    );
}

fn table_exists(s: &Store, name: &str) -> bool {
    s.ask(
        "SELECT count(*) FROM sqlite_master WHERE name = ?1",
        &[text(name)],
    )[0][0]
        == SqlValue::Integer(1)
}

#[test]
fn migrations_set_schema_meta_and_create_tables() {
    let s = Store::new();
    assert_eq!(
        s.count("SELECT version FROM schema_meta LIMIT 1"),
        LATEST_MIGRATION_VERSION as i64
    );
    for t in ["images", "image_vectors", "thumbnails", "image_metadata", "favorites"] {
        assert!(table_exists(&s, t), "table {t} should exist");
    }
}

#[test]
fn migrations_are_idempotent_and_create_tables() {
    let s = Store::new();
    s.migrate(); // second run is a no-op
    for t in [
        "images",
        "image_vectors",
        "thumbnails",
        "thumbnail_failures",
        "image_metadata",
        "favorites",
        "tags",
        "image_tags",
        "collections",
        "collection_images",
        "models",
        "ui_state",
        "image_edits",
        "schema_meta",
    ] {
        assert!(table_exists(&s, t), "missing table {t}");
    }
    assert_eq!(s.count("SELECT COUNT(*) FROM schema_meta"), 1);
}

#[test]
fn migration_005_adds_edit_control_columns() {
    let s = Store::new();
    let columns: Vec<SqlValue> = s
        .ask("PRAGMA table_info(image_edits)", &[])
        .into_iter()
        .map(|mut r| r.remove(1))
        .collect();
    for c in ["contrast", "brightness", "blacks", "whites", "saturation"] {
        assert!(columns.contains(&text(c)), "missing column {c}");
    }
}

#[test]
fn migration_006_creates_thumbnail_failures() {
    assert!(table_exists(&Store::new(), "thumbnail_failures"));
}

#[test]
fn migration_2_seeds_baseline_model_and_user_tables() {
    let s = Store::new();
    let row = s
        .ask(
            "SELECT name, dim, table_name, is_active FROM models WHERE is_active = 1",
            &[],
        )
        .remove(0);
    assert_eq!(row[1], SqlValue::Integer(512));
    assert_eq!(row[2], text("image_vectors"));
    assert_eq!(row[3], SqlValue::Integer(1));
    assert!(matches!(&row[0], SqlValue::Text(n) if n.contains("clip")));
    for t in ["tags", "image_tags", "collections", "collection_images", "models"] {
        assert!(table_exists(&s, t), "table {t} exists");
    }
}

#[test]
fn baseline_seeds_default_model() {
    let s = Store::new();
    let rows: Vec<(SqlValue, SqlValue, SqlValue)> = s
        .rows(&Database::list_models())
        .into_iter()
        .map(|mut r| {
            let active = r.remove(2);
            let dim = r.remove(1);
            (r.remove(0), dim, active)
        })
        .collect();
    let models = Database::read_models(&rows).unwrap();
    assert_eq!(models.len(), 1);
    assert_eq!(models[0].name, "openai/clip-vit-base-patch32");
    assert_eq!(models[0].dim, EmbeddingDim(512));
    assert!(models[0].active);
}

#[test]
fn active_model_defaults_to_baseline_table() {
    let m = Store::new().active_model();
    assert_eq!(m.dim, EmbeddingDim(512));
    assert_eq!(m.table, "image_vectors");
}

#[test]
fn register_and_switch_model_creates_table_and_flips_active() {
    let s = Store::new();
    s.register("test-model", 256);
    s.use_model("test-model");
    let m = s.active_model();
    assert_eq!(
        (m.dim, m.table.as_str()),
        (EmbeddingDim(256), "image_vectors_test_model")
    );
    assert!(table_exists(&s, "image_vectors_test_model"));
    assert_eq!(s.count("SELECT COUNT(*) FROM models WHERE is_active"), 1);
    assert!(Database::set_active_model("nope", false).is_err());
}

/// An image indexed under one model is not indexed after switching to a
/// different (empty) model.
#[test]
fn is_image_indexed_is_model_aware() {
    let s = Store::new();
    let abs = rel("photo.jpg").to_absolute(&s.library.parent_dir);
    let hash = "deadbeef";
    assert!(!s.is_indexed(&abs, hash));
    let row = |dim: usize, value: f32| {
        s.library
            .insert_image(&abs, hash, bytes(&vec![value; dim]))
            .unwrap()
    };
    s.insert_images_batch(vec![row(512, 0.1)]);
    assert!(s.is_indexed(&abs, hash), "indexed under default model");
    s.register("other-model", 8);
    s.use_model("other-model");
    assert!(!s.is_indexed(&abs, hash), "not indexed under the other model");
    s.insert_images_batch(vec![row(8, 0.2)]);
    assert!(s.is_indexed(&abs, hash), "indexed after backfill");
    s.use_model("openai/clip-vit-base-patch32");
    assert!(s.is_indexed(&abs, hash), "default embedding still present");
    s.insert_images_batch(vec![]);
    assert_eq!(s.count("SELECT COUNT(*) FROM images"), 1);
}

fn ranked(s: &Store, limit: usize, offset: usize, max_k: usize, f: &Filters) -> Vec<String> {
    let st = Database::search_similar_images_meta(
        "image_vectors",
        vector(1.0, 0.0),
        limit,
        offset,
        "2",
        MaxK(max_k),
        f,
    );
    s.rows(&st)
        .into_iter()
        .map(|mut r| match r.remove(1) {
            SqlValue::Text(p) => p,
            other => panic!("{other:?}"),
        })
        .collect()
}

fn many(n: i64) -> Store {
    let s = Store::new();
    for id in 1..=n {
        s.image(id, &format!("img{id}.jpg"), None);
        let d = id as f32 * 0.01;
        let (drop, store) =
            Database::set_image_embedding("image_vectors", ImageId(id), vector(1.0 - d, d));
        s.run(&drop);
        s.run(&store);
    }
    s
}

#[test]
fn search_meta_paginates_past_first_page() {
    let s = many(10);
    let f = Filters::default();
    assert_eq!(
        ranked(&s, 4, 0, 100, &f),
        ["img1.jpg", "img2.jpg", "img3.jpg", "img4.jpg"]
    );
    assert_eq!(
        ranked(&s, 4, 4, 100, &f),
        ["img5.jpg", "img6.jpg", "img7.jpg", "img8.jpg"]
    );
}

#[test]
fn search_meta_paginates_past_max_k() {
    assert_eq!(ranked(&many(60), 20, 35, 40, &Filters::default()).len(), 20);
}

#[test]
fn find_similar_to_path_returns_neighbors_from_stored_embedding() {
    let s = Store::with_images(&["a.jpg", "b.jpg"]);
    for (id, v) in [(1, vector(1.0, 0.0)), (2, vector(0.0, 1.0))] {
        let (_, store) = Database::set_image_embedding("image_vectors", ImageId(id), v);
        s.run(&store);
    }
    let seed = Database::stored_embedding("image_vectors", s.id_of("a.jpg"));
    let stored = Database::read_blob(s.first(&seed)).unwrap();
    let st = Database::find_similar_to_path(
        "image_vectors",
        stored,
        10,
        0,
        "2",
        MaxK(100),
        &Filters::default(),
    );
    let rows = s.rows(&st);
    assert_eq!(rows.len(), 2);
    assert_eq!(rows[0][1], text("a.jpg"));
    assert_eq!(rows[1][1], text("b.jpg"));
}

#[test]
fn filtered_vector_search_excludes_nonmatching_types() {
    let s = Store::with_rows(&[("a.jpg", Some(1000)), ("b.png", Some(1000))]);
    for id in [1, 2] {
        let (_, store) =
            Database::set_image_embedding("image_vectors", ImageId(id), vector(1.0, 0.0));
        s.run(&store);
    }
    let jpg_only = Filters {
        extensions: vec!["jpg".into()],
        ..Default::default()
    };
    assert_eq!(ranked(&s, 80, 0, 100, &jpg_only), ["a.jpg"]);
    assert_eq!(ranked(&s, 80, 0, 100, &Filters::default()).len(), 2);
}

#[test]
fn searches_bring_thumbnails_along() {
    let s = many(2);
    s.run(&Database::insert_thumbnail(
        "h2",
        ThumbnailSpec::ScaleSize(ThumbnailSize(300)),
        vec![7, 7],
    ));
    let st = Database::search_similar_images_with_raw_blob(
        "image_vectors",
        vector(1.0, 0.0),
        9,
        0,
        "2",
        MaxK(100),
    );
    let rows = s.rows(&st);
    assert_eq!(rows.len(), 2);
    assert_eq!(rows[0][0], text("img1.jpg"));
    assert_eq!(rows[0][2], SqlValue::Null);
    assert_eq!(rows[1][2], SqlValue::Blob(vec![7, 7]));
    let st = Database::search_similar_images("image_vectors", vector(1.0, 0.0), 1, "2", MaxK(100));
    assert_eq!(s.rows(&st).len(), 1);
}

#[test]
fn browse_filters_by_size_type_and_gps() {
    let s = Store::new();
    let rows = [
        (1, "a.jpg", 1000i64, Some((1.0f64, 2.0f64))),
        (2, "b.png", 5000, None),
        (3, "c.jpg", 9000, Some((3.0, 4.0))),
        (4, "d.nef", 200, None),
    ];
    for (id, path, size, at) in rows {
        s.image(id, path, None);
        s.run(&Database::insert_or_update_metadata(
            ImageId(id),
            &StoredMetadata {
                file_size: Some(size as u64),
                width: None,
                height: None,
                coords: at.map(|(lat, lon)| (lat.to_bits(), lon.to_bits())),
                camera_make: None,
                camera_model: None,
                datetime_taken: None,
            },
        ));
    }
    let browse = |f: Filters| {
        let mut paths: Vec<String> = read_names(&s.column(&Database::browse(&f, 100, 0))).unwrap();
        paths.sort();
        paths
    };
    assert_eq!(browse(Filters::default()).len(), 4);
    assert_eq!(
        browse(Filters {
            extensions: vec!["jpg".into()],
            ..Default::default()
        }),
        ["a.jpg", "c.jpg"]
    );
    assert_eq!(
        browse(Filters {
            size_min: Some(FileSize(500)),
            size_max: Some(FileSize(6000)),
            ..Default::default()
        }),
        ["a.jpg", "b.png"]
    );
    assert_eq!(
        browse(Filters {
            gps: GpsFilter::HasGps,
            ..Default::default()
        }),
        ["a.jpg", "c.jpg"]
    );
    let st = Database::get_images_by_bounds(
        0.0f64.to_bits(),
        1.5f64.to_bits(),
        0.0f64.to_bits(),
        9.0f64.to_bits(),
    );
    let found = s.rows(&st);
    assert_eq!(found.len(), 1);
    assert_eq!(found[0][0], text("a.jpg"));
}

#[test]
fn browse_all_sorts_by_size_then_name_nulls_last() {
    let s = Store::with_rows(&[
        ("b.jpg", Some(10)),
        ("a.jpg", None),
        ("c.jpg", Some(10)),
        ("d.jpg", Some(5)),
    ]);
    assert_eq!(
        s.browse_all(&Filters::default(), SortKey::Size, SortDir::Asc),
        ["d.jpg", "b.jpg", "c.jpg", "a.jpg"]
    );
}

#[test]
fn browse_all_sorts_by_type_then_name() {
    let s = Store::with_images(&["z.PNG", "a.png", "m.jpg"]);
    let rows = s.listing(&Database::browse_all(
        &Filters::default(),
        &Sort {
            key: SortKey::Type,
            dir: SortDir::Asc,
        },
    ));
    assert_eq!(
        rows.iter().map(|r| r.path.as_str()).collect::<Vec<_>>(),
        vec!["m.jpg", "a.png", "z.PNG"]
    );
    assert_eq!(rows[2].ext, "png");
}

#[test]
fn browse_all_name_desc() {
    let s = Store::with_images(&["a.jpg", "b.jpg"]);
    assert_eq!(
        s.browse_all(&Filters::default(), SortKey::Name, SortDir::Desc)[0],
        "b.jpg"
    );
}

#[test]
fn browse_all_default_filters_returns_all() {
    let s = Store::with_rows(&[("a.jpg", Some(1)), ("b.jpg", Some(2)), ("c.jpg", Some(3))]);
    assert_eq!(
        s.browse_all(&Filters::default(), SortKey::Name, SortDir::Asc).len(),
        3
    );
}

#[test]
fn rows_are_rehydrated_in_the_order_of_their_ids() {
    let s = Store::with_rows(&[("a.jpg", Some(1)), ("b.jpg", Some(2)), ("c.jpg", Some(3))]);
    let ids = vec![ImageId(3), ImageId(999), ImageId(1)];
    let rows = s.listing(&Database::rows_by_id(&ids));
    let got = Database::rehydrate_rows(&ids, &rows);
    assert_eq!(
        got.iter().map(|r| r.path.as_str()).collect::<Vec<_>>(),
        vec!["c.jpg", "a.jpg"]
    );
}

#[test]
fn ui_state_text_round_trips() {
    let s = Store::new();
    assert!(s.first(&Database::get_ui_state()).is_none());
    s.run(&Database::set_ui_state("{\"a\":1}"));
    s.run(&Database::set_ui_state("{\"a\":2}"));
    assert_eq!(s.column(&Database::get_ui_state()), vec![text("{\"a\":2}")]);
}

#[test]
fn browse_all_filters_by_tags_all_and_any() {
    let s = Store::with_images(&["a.jpg", "b.jpg", "c.jpg"]);
    s.tag("a.jpg", "beach");
    s.tag("a.jpg", "sunset");
    s.tag("b.jpg", "beach");
    let tags = vec!["beach".to_string(), "sunset".to_string()];
    let browse = |tag_filter: TagFilter| {
        s.browse_all(
            &Filters {
                tag_filter,
                ..Default::default()
            },
            SortKey::Name,
            SortDir::Asc,
        )
    };
    assert_eq!(
        browse(TagFilter::Active {
            tags: tags.clone(),
            match_mode: TagMatch::AllOf
        }),
        ["a.jpg"]
    );
    assert_eq!(
        browse(TagFilter::Active {
            tags: tags.clone(),
            match_mode: TagMatch::AnyOf
        }),
        ["a.jpg", "b.jpg"]
    );
    assert_eq!(
        browse(TagFilter::Inactive {
            tags,
            match_mode: TagMatch::AllOf
        })
        .len(),
        3
    );
}

#[test]
fn batch_tag_and_untag_images() {
    let s = Store::with_images(&["p1.jpg", "p2.jpg", "p3.jpg"]);
    let ids = |paths: &[&str]| {
        let list: Vec<String> = paths.iter().map(|p| p.to_string()).collect();
        read_image_ids(&s.column(&Database::resolve_image_ids(&list))).unwrap()
    };
    let (write, find) = Database::create_tag("beach");
    s.run(&write);
    let beach = Database::read_tag_id(&s.first(&find)).unwrap();
    for st in Database::batch_tag_images(&ids(&["p1.jpg", "p2.jpg", "p3.jpg"]), beach) {
        s.run(&st);
    }
    for p in ["p1.jpg", "p2.jpg", "p3.jpg"] {
        assert_eq!(s.tags(p), vec!["beach"]);
    }
    for st in Database::batch_untag_images(&ids(&["p1.jpg", "p3.jpg"]), "beach") {
        s.run(&st);
    }
    assert_eq!(s.tags("p1.jpg"), Vec::<String>::new());
    assert_eq!(s.tags("p2.jpg"), vec!["beach"]);
    assert_eq!(s.tags("p3.jpg"), Vec::<String>::new());
    for st in Database::batch_tag_images(&ids(&["p2.jpg"]), beach) {
        s.run(&st);
    }
    assert_eq!(s.tags("p2.jpg"), vec!["beach"]);
    for st in Database::batch_tag_images(&ids(&["p1.jpg", "nonexistent.jpg"]), beach) {
        s.run(&st);
    }
    assert_eq!(s.tags("p1.jpg"), vec!["beach"]);
}

#[test]
fn full_size_thumbnail_round_trips_and_is_distinct_from_scaled() {
    let s = Store::new();
    let scaled = ThumbnailSpec::ScaleSize(ThumbnailSize(2048));
    s.run(&Database::insert_thumbnail("h", ThumbnailSpec::FullSize, vec![1, 2, 3]));
    s.run(&Database::insert_thumbnail("h", scaled, vec![9, 9]));
    let get = |spec: ThumbnailSpec| Database::read_blob(s.first(&Database::get_thumbnail("h", spec)));
    assert_eq!(get(ThumbnailSpec::FullSize).unwrap(), vec![1, 2, 3]);
    assert_eq!(get(scaled).unwrap(), vec![9, 9]);
    assert!(get(ThumbnailSpec::ScaleSize(ThumbnailSize(300))).is_err());
}

#[test]
fn thumbnail_sizes_lists_distinct() {
    let s = Store::with_images(&["a.jpg"]);
    let thumb = |size: u32, data: Vec<u8>| Thumb {
        hash: "h1".to_string(),
        size,
        data,
    };
    for st in Database::insert_thumbnails_batch(vec![
        thumb(300, vec![1, 2, 3]),
        thumb(512, vec![4, 5, 6]),
    ]) {
        s.run(&st);
    }
    let mut sizes: Vec<i64> = s
        .column(&Database::get_thumbnail_sizes("h1"))
        .iter()
        .map(|v| col_i64(v).unwrap())
        .collect();
    sizes.sort_unstable();
    assert_eq!(sizes, vec![300, 512]);
}

#[test]
fn failed_thumbnails_are_not_tried_again() {
    let s = Store::with_images(&["a.jpg", "b.jpg", "c.jpg"]);
    let missing = || {
        let n = col_i64(
            &s.first(&Database::count_images_without_thumbnails(ThumbnailSize(300))).unwrap(),
        )
        .unwrap();
        let st = Database::get_images_without_thumbnails(ThumbnailSize(300), n as usize).unwrap();
        let rows: Vec<(SqlValue, SqlValue)> = s
            .rows(&st)
            .into_iter()
            .map(|mut r| {
                let hash = r.remove(1);
                (r.remove(0), hash)
            })
            .collect();
        let files = s.library.read_sources(&rows).unwrap();
        assert_eq!(files.len() as i64, n);
        files.into_iter().map(|f| f.0 .0).collect::<Vec<String>>()
    };
    assert_eq!(missing(), ["/lib/a.jpg", "/lib/b.jpg", "/lib/c.jpg"]);
    s.run(&Database::insert_thumbnail_failure("h1", 300, "broken"));
    s.run(&Database::insert_thumbnail(
        "h2",
        ThumbnailSpec::ScaleSize(ThumbnailSize(300)),
        vec![1],
    ));
    assert_eq!(missing(), ["/lib/c.jpg"]);
    assert_eq!(
        s.column(&Database::thumbnail_failure_count("h1")),
        vec![SqlValue::Integer(1)]
    );
}

#[test]
fn image_edits_upsert_and_read() {
    let s = Store::with_images(&["a.jpg"]);
    assert!(s.rows(&Database::get_image_edits(&rel("a.jpg"))).is_empty());
    let edits = [1.5f64, 40.0, -20.0, 15.0, 10.0, -5.0];
    s.run(&Database::set_image_edits(&rel("a.jpg"), edits.map(f64::to_bits)));
    let row = s.rows(&Database::get_image_edits(&rel("a.jpg"))).remove(0);
    assert_eq!(
        row,
        edits.iter().map(|e| SqlValue::Real(e.to_bits())).collect::<Vec<_>>()
    );
    let edits = [-0.75f64, 0.0, 0.0, 0.0, 0.0, 0.0];
    s.run(&Database::set_image_edits(&rel("a.jpg"), edits.map(f64::to_bits)));
    let rows = s.rows(&Database::get_image_edits(&rel("a.jpg")));
    assert_eq!(rows.len(), 1);
    assert_eq!(rows[0][0], SqlValue::Real((-0.75f64).to_bits()));
}

#[test]
fn indexed_rows_wait_for_their_embeddings() {
    let s = Store::new();
    let rows = vec![
        IndexRow {
            rel_path: "a.jpg".to_string(),
            hash: "1".to_string(),
        },
        IndexRow {
            rel_path: "b.jpg".to_string(),
            hash: "2".to_string(),
        },
    ];
    for st in Database::insert_image_rows_batch(&rows) {
        s.run(&st);
    }
    let waiting = || {
        let st = Database::get_images_without_embedding("image_vectors", 10).unwrap();
        let rows: Vec<(SqlValue, SqlValue, SqlValue)> = s
            .rows(&st)
            .into_iter()
            .map(|mut r| {
                let hash = r.remove(2);
                let path = r.remove(1);
                (r.remove(0), path, hash)
            })
            .collect();
        s.library.read_files(&rows).unwrap()
    };
    let files = waiting();
    assert_eq!(files.len(), 2);
    assert_eq!(files[0].path.as_str(), "/lib/a.jpg");
    assert_eq!(files[1].hash, "2");
    let (drop, store) =
        Database::set_image_embedding("image_vectors", files[0].id, vector(1.0, 0.0));
    s.run(&drop);
    s.run(&store);
    assert_eq!(waiting().len(), 1);
    assert_eq!(
        s.column(&Database::count_images_without_embedding("image_vectors")),
        vec![SqlValue::Integer(1)]
    );
    // Re-inserting keeps the id and takes the new hash.
    let again = vec![IndexRow {
        rel_path: "a.jpg".to_string(),
        hash: "new".to_string(),
    }];
    for st in Database::insert_image_rows_batch(&again) {
        s.run(&st);
    }
    assert_eq!(s.id_of("a.jpg"), files[0].id);
    let inside = AbsolutePath("/lib/a.jpg".to_string());
    assert_eq!(
        s.column(&s.library.get_image_id(&inside).unwrap()),
        vec![SqlValue::Integer(files[0].id.0)]
    );
    let outside = AbsolutePath("/other/a.jpg".to_string());
    assert_eq!(s.library.get_image_id(&outside), Err(DbError::OutsideLibrary));
    assert_eq!(
        s.column(&Database::get_image_hash(&rel("a.jpg"))),
        vec![text("new")]
    );
    // Files that are gone leave with their embeddings.
    let gone = s.library.missing_images(
        &vec![
            (files[0].id, rel("a.jpg")),
            (files[1].id, rel("b.jpg")),
        ],
        |p: &str| p == "/lib/b.jpg",
    );
    for (vector, image) in Database::clean_missing_files("image_vectors", &gone) {
        s.run(&vector);
        s.run(&image);
    }
    assert_eq!(
        s.column(&Database::get_image_count()),
        vec![SqlValue::Integer(1)]
    );
    assert_eq!(s.count("SELECT COUNT(*) FROM image_vectors"), 0);
    assert_eq!(
        s.column(&Database::get_sample_images(5)),
        vec![text("b.jpg")]
    );
}

#[test]
fn migrates_images_embeddings_thumbnails_with_stable_ids() {
    let s = Store::new();
    let source: Vec<(i64, Vec<u8>)> =
        (1..=3i64).map(|id| (id, bytes(&unit_vec(id as f32, 0.1)))).collect();
    let embedding = |i: usize| LegacyEmbedding {
        image_id: source[i].0,
        blob: source[i].1.clone(),
    };
    let model = |name: &str, table: &str, active: bool| LegacyModel {
        name: name.to_string(),
        dim: EmbeddingDim(512),
        table_name: table.to_string(),
        is_active: active,
    };
    let thumbnail = |hash: &str, size: i64, blob: Vec<u8>| LegacyThumbnail {
        hash: hash.to_string(),
        size,
        blob,
    };
    let bare = |image_id: i64, file_size: i64| MetadataRow {
        image_id,
        file_size: Some(file_size),
        width: None,
        height: None,
        latitude_bits: None,
        longitude_bits: None,
        camera_make: None,
        camera_model: None,
        datetime_taken: None,
    };
    let favorite = |image_id: i64, at: &str| LegacyFavorite {
        image_id,
        created_at: Some(at.to_string()),
    };
    let data = LegacyData {
        models: vec![
            model("openai/clip-vit-base-patch32", "image_vectors", true),
            model("test/other-model", "image_vectors_test_other_model", false),
        ],
        images: (1..=3i64)
            .map(|id| LegacyImage {
                id,
                path: format!("img{id}.jpg"),
                hash: format!("hash{id}"),
                created_at: None,
            })
            .collect(),
        embeddings: vec![
            EmbeddingTable {
                table: "image_vectors".to_string(),
                rows: vec![embedding(0), embedding(1), embedding(2)],
            },
            EmbeddingTable {
                table: "image_vectors_test_other_model".to_string(),
                rows: vec![embedding(0)],
            },
        ],
        thumbnails: vec![
            thumbnail("hash1", 300, vec![1, 2, 3, 4]),
            thumbnail("hash2", 512, vec![5, 6, 7, 8, 9]),
        ],
        metadata: vec![
            MetadataRow {
                width: Some(800),
                height: Some(600),
                latitude_bits: Some(37.5f64.to_bits()),
                longitude_bits: Some((-122.3f64).to_bits()),
                camera_make: Some("Canon".to_string()),
                camera_model: Some("EOS".to_string()),
                datetime_taken: Some("2024-01-01 12:00:00".to_string()),
                ..bare(1, 1024)
            },
            bare(2, 2048),
        ],
        favorites: vec![
            favorite(1, "2024-01-01 00:00:00"),
            favorite(3, "2024-02-01 00:00:00"),
            favorite(2, "2024-03-01 00:00:00"),
        ],
        tags: vec![IdName {
            id: 1,
            name: "sunset".to_string(),
        }],
        image_tags: vec![IdPair {
            first: 1,
            second: 1,
        }],
        collections: vec![IdName {
            id: 1,
            name: "trip".to_string(),
        }],
        collection_images: vec![IdPair {
            first: 1,
            second: 2,
        }],
        ui_state: Some("{\"search\":\"x\"}".to_string()),
    };
    assert_eq!(
        outcome(MigrateStep::Done, data.counts()),
        Some(MigrateOutcome::Migrated {
            images: 3,
            embeddings: 4,
            thumbnails: 2
        })
    );
    for st in write_turso(&data).unwrap() {
        s.run(&st);
    }
    // Image ids / paths / hashes preserved exactly.
    let images = s.ask("SELECT id, path, hash FROM images ORDER BY id", &[]);
    assert_eq!(images.len(), 3);
    for (row, id) in images.iter().zip(1..=3i64) {
        assert_eq!(row[0], SqlValue::Integer(id));
        assert_eq!(row[1], text(&format!("img{id}.jpg")));
        assert_eq!(row[2], text(&format!("hash{id}")));
    }
    // Byte-exact embeddings, in both tables.
    let stored = |table: &str, id: i64| {
        Database::read_blob(s.first(&Database::stored_embedding(table, ImageId(id)))).unwrap()
    };
    for (id, blob) in &source {
        assert_eq!(&stored("image_vectors", *id), blob);
    }
    assert_eq!(stored("image_vectors_test_other_model", 1), source[0].1);
    assert_eq!(s.active_table(), "image_vectors");
    // Byte-exact thumbnails.
    let thumb = |hash: &str, px: u32| {
        let spec = ThumbnailSpec::ScaleSize(ThumbnailSize(px));
        Database::read_blob(s.first(&Database::get_thumbnail(hash, spec))).unwrap()
    };
    assert_eq!(thumb("hash1", 300), vec![1u8, 2, 3, 4]);
    assert_eq!(thumb("hash2", 512), vec![5u8, 6, 7, 8, 9]);
    // Metadata preserved (image 1 GPS + camera).
    let row = s
        .ask(
            "SELECT file_size, latitude, camera_model FROM image_metadata WHERE image_id=1",
            &[],
        )
        .remove(0);
    assert_eq!(row[0], SqlValue::Integer(1024));
    assert_eq!(row[1], SqlValue::Real(37.5f64.to_bits()));
    assert_eq!(row[2], text("EOS"));
    // Tag and collection with their links.
    assert_eq!(s.tags("img1.jpg"), vec!["sunset"]);
    assert_eq!(
        read_paths(&s.column(&Database::collection_images("trip"))).unwrap(),
        vec![rel("img2.jpg")]
    );
    // Favorites keep the order of their timestamps.
    assert_eq!(
        read_paths(&s.column(&Database::list_favorites())).unwrap(),
        vec![rel("img2.jpg"), rel("img3.jpg"), rel("img1.jpg")]
    );
    assert_eq!(
        s.column(&Database::get_ui_state()),
        vec![text("{\"search\":\"x\"}")]
    );
    // Querying with image 1's own embedding ranks image 1 first.
    let q = knn_query("image_vectors", "id, distance", "", "", 3, 0, "2");
    let ranked = s.ask(&q, &[SqlValue::Blob(source[0].1.clone())]);
    assert_eq!(ranked[0][0], SqlValue::Integer(1));
}

#[test]
fn answers_of_the_wrong_kind_are_refused() {
    let number = || SqlValue::Integer(1);
    assert_eq!(
        read_names(&vec![text("a"), number()]),
        Err(DbError::UnexpectedValue)
    );
    assert!(read_paths(&vec![SqlValue::Null]).is_err());
    assert_eq!(
        read_image_ids(&vec![text("a")]),
        Err(DbError::UnexpectedValue)
    );
    assert_eq!(Database::read_image_id(&None), Err(DbError::NotIndexed));
    assert_eq!(
        Database::read_image_id(&Some(text("x"))),
        Err(DbError::UnexpectedValue)
    );
    assert_eq!(Database::read_tag_id(&None), Err(DbError::MissingRow));
    assert_eq!(
        Database::read_blob(Some(number())),
        Err(DbError::UnexpectedValue)
    );
    assert_eq!(Database::read_blob(None), Err(DbError::MissingRow));
    assert_eq!(
        Database::read_active_model(&None).unwrap_err(),
        DbError::MissingRow
    );
    assert_eq!(
        Database::read_active_model(&Some((text("m"), text("512"), text("t")))).unwrap_err(),
        DbError::UnexpectedValue
    );
    assert!(Database::read_models(&vec![(text("m"), number(), SqlValue::Null)]).is_err());
    let library = Database {
        parent_dir: "/lib".to_string(),
    };
    assert!(library.read_sources(&vec![(text("a"), number())]).is_err());
    assert!(library
        .read_files(&vec![(text("a"), text("b"), text("c"))])
        .is_err());
    assert_eq!(
        Database::get_images_without_embedding("v", usize::MAX),
        Err(DbError::LimitTooLarge)
    );
}

#[test]
fn a_batch_without_an_id_is_given_up() {
    let step = Database::insert_images_batch(2);
    assert_eq!(step, InsertStep::Upsert(0));
    let step = Database::after_insert_step(step, &None, 2);
    assert_eq!(step, InsertStep::FindId(0));
    let step = Database::after_insert_step(step, &None, 2);
    assert_eq!(step, InsertStep::Fail(DbError::MissingRow));
    assert_eq!(Database::after_insert_step(step, &None, 2), step);
    let stored = InsertStep::StoreVector(0, ImageId(4));
    assert_eq!(
        Database::after_insert_step(stored, &None, 2),
        InsertStep::Upsert(1)
    );
    assert_eq!(
        Database::after_insert_step(InsertStep::StoreVector(1, ImageId(4)), &None, 2),
        InsertStep::Commit
    );
}

#[test]
fn index_and_search_roundtrip_through_block_on() {
    let s = Store::new();
    let row = |path: &str, hash: &str, embedding: Vec<u8>| ImageRow {
        path: path.to_string(),
        hash: hash.to_string(),
        embedding,
    };
    s.insert_images_batch(vec![
        row("alpha.jpg", "hash_a", vector(1.0, 0.0)),
        row("beta.jpg", "hash_b", vector(0.0, 1.0)),
    ]);
    let st = Database::search_similar_images("image_vectors", vector(1.0, 0.0), 10, "2", MaxK(100));
    let results = s.rows(&st);
    assert!(!results.is_empty());
    assert_eq!(results[0][0], text("alpha.jpg"));
    match results[0][1] {
        SqlValue::Real(bits) => assert!(f64::from_bits(bits) < 0.01),
        ref other => panic!("{other:?}"),
    }
}

/// A 512-dim L2-normalised vector seeded with a constant.
fn unit_vec(seed: f32, shift: f32) -> Vec<f32> {
    let mut v: Vec<f32> = (0..512).map(|i| (i as f32 * seed + shift).sin()).collect();
    let norm: f32 = v.iter().map(|x| x * x).sum::<f32>().sqrt();
    v.iter_mut().for_each(|x| *x /= norm);
    v
}

#[test]
fn blob_round_trip_and_knn_query_shape() {
    let s = Store::new();
    s.sql("INSERT INTO images (id, path, hash) VALUES (1,'a','h1'),(2,'b','h2')");
    for (id, seed) in [(1, 1.0), (2, 2.0)] {
        let blob = bytes(&unit_vec(seed, 0.0));
        let (_, store) = Database::set_image_embedding("image_vectors", ImageId(id), blob);
        s.run(&store);
    }
    let seed = Database::stored_embedding("image_vectors", ImageId(1));
    assert_eq!(
        Database::read_blob(s.first(&seed)).unwrap(),
        bytes(&unit_vec(1.0, 0.0))
    );
    let q1 = knn_query("image_vectors", "id, path, distance", "", "", 10, 0, "0.5");
    assert!(q1.contains("vector_distance_cos"));
    assert!(q1.contains("image_vectors"));
    let q2 = knn_query(
        "image_vectors",
        "id, distance",
        "JOIN favorites f ON f.image_id = i.id",
        " AND m.file_size >= ?",
        5,
        10,
        "0.3",
    );
    assert!(q2.contains("JOIN favorites"));
    assert!(q2.contains("file_size"));
    assert!(q2.contains("LIMIT 5"));
    assert!(q2.contains("OFFSET 10"));
    assert!(q2.contains("0.3"), "threshold must appear as float literal");
}

#[test]
fn missing_thumbnail_limit_bind_uses_real_count() {
    let s = Store::with_images(&["img1.jpg", "img2.jpg", "img3.jpg"]);
    let size = ThumbnailSize(300);
    // usize::MAX overflows the i64 LIMIT bind and is rejected.
    assert!(Database::get_images_without_thumbnails(size, usize::MAX).is_err());
    let count = s.first(&Database::count_images_without_thumbnails(size)).unwrap();
    let missing = col_i64(&count).unwrap() as usize;
    assert_eq!(missing, 3);
    let st = Database::get_images_without_thumbnails(size, missing).unwrap();
    assert_eq!(s.rows(&st).len(), 3);
}

#[test]
fn distinct_extensions_and_size_bounds() {
    let s = Store::with_rows(&[("a.JPG", Some(10)), ("b.png", Some(50)), ("c.jpg", Some(30))]);
    let lowered: Vec<SqlValue> = s
        .ask("SELECT DISTINCT lower(path) FROM images", &[])
        .into_iter()
        .map(|mut r| r.remove(0))
        .collect();
    let mut exts = Database::distinct_extensions(&read_names(&lowered).unwrap());
    exts.sort();
    assert_eq!(exts, vec!["jpg".to_string(), "png".to_string()]);
    let row = s
        .ask(
            "SELECT MIN(file_size), MAX(file_size) FROM image_metadata WHERE file_size IS NOT NULL",
            &[],
        )
        .remove(0);
    assert_eq!(
        Database::file_size_bounds(col_i64(&row[0]), col_i64(&row[1])),
        (10, 50)
    );
}
