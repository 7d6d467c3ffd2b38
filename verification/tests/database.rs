//! Statements, rows, schema, models, migration.

use imgfind::database::{ext_of_path, pool_size, row_meta, Database, DbError};
use imgfind::filters::Filters;
use imgfind::grid::{
    downsample_by_grid, jitter_bits, needs_downsampling, needs_jitter, select_in_view, GridItem,
};
use imgfind::ids::ImageId;
use imgfind::migrate::{
    backup_path, is_legacy_db, migrate_db, outcome, sidecars, temp_path, write_turso,
    EmbeddingTable, IdName, IdPair, LegacyData, LegacyEmbedding, LegacyFavorite, LegacyImage,
    LegacyModel, LegacyThumbnail, MetadataRow, MigrateError, MigrateOutcome, MigrateStep,
};
use imgfind::models::{
    ensure_and_activate_model, list_rows, model_line, open_db_seeding_default, Activation,
    ModelError, RegisteredModel, SupportedModel,
};
use imgfind::paths::{AbsolutePath, RelativePath};
use imgfind::schema::{
    create_vector_table, current_version, migration_001_baseline, migration_005_edit_controls,
    run_migrations, sanitize_model_table, version_stamp, SchemaError, LATEST_MIGRATION_VERSION,
    VERSION_SEED,
};
use imgfind::sort::{Sort, SortDir, SortKey};
use imgfind::sql::{col_i64, col_text, SqlValue};
use imgfind::units::{EmbeddingDim, FileSize, MaxK, ThumbnailSize};
use imgfind::vector_sql::knn_query;

fn text(s: &str) -> SqlValue {
    SqlValue::Text(s.to_string())
}

#[test]
fn knn_query_shape() {
    let q1 = knn_query("image_vectors", "id, path, distance", "", "", 10, 0, "0.5");
    assert!(q1.contains("vector_distance_cos"));
    assert!(q1.contains("image_vectors"));
    let q2 = knn_query(
        "image_vectors",
        "id, distance",
        "JOIN favorites f ON f.image_id = i.id",
        " AND m.file_size >= ?",
        5,
        10,
        "0.3",
    );
    assert!(q2.contains("JOIN favorites"));
    assert!(q2.contains("file_size"));
    assert!(q2.contains("LIMIT 5"));
    assert!(q2.contains("OFFSET 10"));
    assert!(q2.contains("0.3"));
    // The filter stands where its aliases are in scope, behind the embedding.
    let embedding = q2.find("vector_distance_cos").unwrap();
    let filter = q2.find("AND m.file_size >= ?").unwrap();
    let closed = q2.find("\n) WHERE distance <= 0.3").unwrap();
    assert!(embedding < filter && filter < closed);
}

#[test]
fn search_statements_hold_the_limit() {
    let s = Database::search_similar_images("v", vec![1, 2], 0, "1.3", MaxK(100));
    assert!(s.sql.ends_with("LIMIT 1 OFFSET 0"));
    assert_eq!(s.params, vec![SqlValue::Blob(vec![1, 2])]);
    let s = Database::search_similar_images("v", vec![], usize::MAX, "1.3", MaxK(100));
    assert!(s.sql.ends_with("LIMIT 100 OFFSET 0"));
    let s = Database::search_similar_images_with_raw_blob("v", vec![], 9, 18, "1.3", MaxK(100));
    assert!(s.sql.ends_with("LIMIT 9 OFFSET 18"));
    assert!(s.sql.contains("t.size = 300"));
}

#[test]
fn filtered_search_binds_the_embedding_first() {
    let f = Filters {
        extensions: vec!["jpg".into()],
        ..Default::default()
    };
    let s = Database::search_similar_images_meta("v", vec![7], 80, 160, "1.3", MaxK(100), &f);
    assert!(s.sql.ends_with("LIMIT 80 OFFSET 160"));
    assert_eq!(s.params, vec![SqlValue::Blob(vec![7]), text("%.jpg")]);
    // A stored embedding is read in whole numbers of four bytes.
    let s = Database::find_similar_to_path(
        "v",
        vec![1, 2, 3, 4, 5],
        10,
        0,
        "1.3",
        MaxK(5),
        &Filters::default(),
    );
    assert_eq!(s.params, vec![SqlValue::Blob(vec![1, 2, 3, 4])]);
}

#[test]
fn browse_statements() {
    let s = Database::browse(&Filters::default(), 5, 10);
    assert_eq!(
        s.sql,
        "SELECT i.path, m.file_size FROM images i LEFT JOIN image_metadata m ON m.image_id = i.id WHERE 1=1 ORDER BY m.datetime_taken DESC, i.id DESC LIMIT ? OFFSET ?"
    );
    assert_eq!(s.params, vec![SqlValue::Integer(5), SqlValue::Integer(10)]);
    let f = Filters {
        size_min: Some(FileSize(3)),
        ..Default::default()
    };
    let s = Database::browse_all(
        &f,
        &Sort {
            key: SortKey::Name,
            dir: SortDir::Desc,
        },
    );
    assert!(s
        .sql
        .ends_with("WHERE 1=1 AND m.file_size >= ? ORDER BY i.path DESC"));
    assert_eq!(s.params, vec![SqlValue::Integer(3)]);
    let s = Database::rows_by_id(&vec![ImageId(4), ImageId(2)]);
    assert!(s.sql.ends_with("WHERE i.id IN (?,?)"));
    assert_eq!(s.params, vec![SqlValue::Integer(4), SqlValue::Integer(2)]);
    let s = Database::resolve_image_ids(&vec!["a".to_string()]);
    assert_eq!(s.sql, "SELECT id FROM images WHERE path IN (?)");
    assert_eq!(s.params, vec![text("a")]);
}

#[test]
fn lookups_work_on_stored_paths() {
    let db = Database {
        parent_dir: "/lib".to_string(),
    };
    let inside = AbsolutePath("/lib/a/b.jpg".to_string());
    let outside = AbsolutePath("/other/b.jpg".to_string());
    let s = db.is_image_indexed("vt", &inside, "h").unwrap();
    assert!(s.sql.contains("FROM vt WHERE image_id = i.id"));
    assert_eq!(s.params, vec![text("a/b.jpg"), text("h")]);
    assert_eq!(
        db.is_image_indexed("vt", &outside, "h"),
        Err(DbError::OutsideLibrary)
    );
    assert!(db.stored_path(&outside).is_err());
    assert_eq!(
        Database::delete_vector_sql("vt"),
        "DELETE FROM vt WHERE image_id = ?1"
    );
    assert_eq!(
        Database::insert_vector_sql("vt"),
        "INSERT INTO vt (image_id, embedding) VALUES (?1, ?2)"
    );
}

#[test]
fn vector_tables_are_plain_identifiers() {
    assert_eq!(
        Database::vectors_table("image_vectors"),
        Ok("image_vectors".to_string())
    );
    assert_eq!(
        Database::vectors_table("x; DROP TABLE images"),
        Err(DbError::InvalidTableName)
    );
}

#[test]
fn favorite_statements() {
    let (s, now) = Database::toggle_favorite(ImageId(3), false);
    assert!(now);
    assert_eq!(s.sql, "INSERT INTO favorites (image_id) VALUES (?1)");
    assert_eq!(s.params, vec![SqlValue::Integer(3)]);
    let (s, now) = Database::toggle_favorite(ImageId(3), true);
    assert!(!now);
    assert_eq!(s.sql, "DELETE FROM favorites WHERE image_id = ?1");
}

#[test]
fn limits_have_to_fit_the_database() {
    // usize::MAX overflows the i64 LIMIT bind and is rejected.
    assert!(Database::get_images_without_thumbnails(ThumbnailSize(300), usize::MAX).is_err());
    let s = Database::get_images_without_thumbnails(ThumbnailSize(300), 3).unwrap();
    assert_eq!(s.params, vec![SqlValue::Integer(300), SqlValue::Integer(3)]);
    assert!(s.sql.contains("thumbnail_failures"));
    let c = Database::count_images_without_thumbnails(ThumbnailSize(512));
    assert_eq!(c.params, vec![SqlValue::Integer(512)]);
    assert!(c.sql.starts_with("SELECT COUNT(*)"));
    assert_eq!(
        Database::get_images_without_metadata(usize::MAX),
        Err(DbError::LimitTooLarge)
    );
    assert!(Database::get_images_without_metadata(10).is_ok());
    assert_eq!(pool_size(None), 8);
    assert_eq!(pool_size(Some(4)), 4);
    assert_eq!(pool_size(Some(64)), 32);
}

#[test]
fn rehydrate_preserves_order_and_drops_missing() {
    let rows = vec![
        row_meta(1, "a.jpg".to_string(), Some(1)),
        row_meta(2, "b.jpg".to_string(), Some(2)),
        row_meta(3, "c.jpg".to_string(), Some(3)),
    ];
    let want = vec![ImageId(3), ImageId(999), ImageId(1)];
    let got = Database::rehydrate_rows(&want, &rows);
    assert_eq!(
        got.iter().map(|r| r.path.as_str()).collect::<Vec<_>>(),
        vec!["c.jpg", "a.jpg"]
    );
}

#[test]
fn rehydrate_empty_is_empty() {
    let rows = vec![row_meta(1, "a.jpg".to_string(), Some(1))];
    assert!(Database::rehydrate_rows(&vec![], &rows).is_empty());
}

#[test]
fn rehydrate_rows_ordered_with_metadata_populated() {
    let rows = vec![
        row_meta(1, "img1.jpg".to_string(), Some(100)),
        row_meta(2, "img2.jpg".to_string(), Some(200)),
        row_meta(3, "img3.jpg".to_string(), Some(300)),
    ];
    let ids = vec![ImageId(3), ImageId(999), ImageId(1), ImageId(2)];
    let got = Database::rehydrate_rows(&ids, &rows);
    assert_eq!(got.len(), 3);
    assert_eq!(got[0].id, ImageId(3));
    assert_eq!(got[1].id, ImageId(1));
    assert_eq!(got[2].id, ImageId(2));
    assert_eq!(got[0].path, "img3.jpg");
    assert_eq!(got[1].path, "img1.jpg");
    assert_eq!(got[2].path, "img2.jpg");
    assert_eq!(got[0].size, Some(FileSize(300)));
    assert_eq!(got[1].size, Some(FileSize(100)));
    assert_eq!(got[2].size, Some(FileSize(200)));
    assert_eq!(got[0].ext, "jpg");
}

#[test]
fn extensions_are_told_from_directories() {
    let paths: Vec<String> = ["b.png", "a.jpg", "c.jpg", "d", "e.", "f.g/h", "z.arw"]
        .iter()
        .map(|s| s.to_string())
        .collect();
    let exts = Database::distinct_extensions(&paths);
    assert_eq!(exts, vec!["arw", "jpg", "png"]);
    assert_eq!(Database::file_size_bounds(Some(10), Some(50)), (10, 50));
    assert_eq!(Database::file_size_bounds(None, None), (0, 0));
}

#[test]
fn listed_extension_is_lowercased() {
    assert_eq!(ext_of_path("a.JPG"), "jpg");
    assert_eq!(ext_of_path("noext"), "");
    assert_eq!(ext_of_path("dir.d/file"), "d/file");
    assert_eq!(ext_of_path("x.\u{00c9}"), "\u{00e9}");
}

#[test]
fn missing_files_are_found() {
    let db = Database {
        parent_dir: "/lib".to_string(),
    };
    let rows = vec![
        (ImageId(1), RelativePath("a.jpg".to_string())),
        (ImageId(2), RelativePath("b.jpg".to_string())),
        (ImageId(3), RelativePath("c.jpg".to_string())),
    ];
    let gone = db.missing_images(&rows, |p: &str| p == "/lib/b.jpg");
    assert_eq!(gone, vec![ImageId(1), ImageId(3)]);
}

#[test]
fn columns_are_checked() {
    assert_eq!(col_i64(&SqlValue::Integer(4)), Some(4));
    assert_eq!(col_i64(&SqlValue::Null), None);
    assert_eq!(col_text(text("x")), Some("x".to_string()));
    assert_eq!(col_text(SqlValue::Blob(vec![])), None);
}

fn item(cell: Option<(i64, i64)>, taken: Option<&str>) -> GridItem {
    GridItem {
        cell,
        taken: taken.map(|s| s.to_string()),
    }
}

#[test]
fn crowded_cells_show_their_newest_few() {
    let mut items = Vec::new();
    for i in 0..11 {
        let day = format!("2024-01-{:02}", i + 1);
        items.push(item(Some((0, 0)), Some(day.as_str())));
    }
    assert_eq!(downsample_by_grid(&items, 10, 2), vec![10, 9]);
    // At the limit, all are kept, newest first; ties keep their order.
    let few = vec![
        item(Some((1, 1)), None),
        item(Some((1, 1)), Some("2024")),
        item(None, Some("2025")),
        item(Some((1, 1)), Some("2024")),
        item(Some((1, 1)), Some("2025")),
    ];
    assert_eq!(downsample_by_grid(&few, 10, 2), vec![4, 1, 3, 0]);
    // Cells come in any order, but each whole.
    let two = vec![item(Some((0, 0)), None), item(Some((5, -5)), None)];
    let mut kept = downsample_by_grid(&two, 10, 2);
    kept.sort();
    assert_eq!(kept, vec![0, 1]);
    assert!(downsample_by_grid(&vec![], 10, 2).is_empty());
}

#[test]
fn small_views_are_not_thinned_out() {
    assert!(!needs_downsampling(99, false));
    assert!(needs_downsampling(100, false));
    assert!(!needs_downsampling(100, true));
    assert!(needs_jitter(99));
    assert!(!needs_jitter(100));
    assert_eq!(jitter_bits(0x0000_0002_0000_0001), (1, 2));
}

#[test]
fn sanitize_model_table_replaces_non_alphanumeric() {
    assert_eq!(
        sanitize_model_table("openai/clip-vit-base-patch32"),
        "image_vectors_openai_clip_vit_base_patch32"
    );
    assert_eq!(
        sanitize_model_table("laion/CLIP-ViT-L-14"),
        "image_vectors_laion_clip_vit_l_14"
    );
}

#[test]
fn create_vector_table_rejects_invalid_names() {
    assert_eq!(
        create_vector_table("bad name!", EmbeddingDim(512)),
        Err(SchemaError::InvalidTableName)
    );
    assert!(create_vector_table("", EmbeddingDim(512)).is_err());
    assert_eq!(
        create_vector_table("good_name", EmbeddingDim(128)).unwrap(),
        "CREATE TABLE IF NOT EXISTS good_name (image_id INTEGER PRIMARY KEY REFERENCES images(id) ON DELETE CASCADE, embedding F32_BLOB(128) NOT NULL)"
    );
}

#[test]
fn migrations_are_idempotent() {
    let none: Vec<String> = vec![];
    let all = run_migrations(0, &none);
    assert_eq!(all.len(), 13 + 6 + 1 + 1 + 5 + 2);
    assert!(all[1].contains("F32_BLOB(512)"));
    assert_eq!(migration_001_baseline().len(), 13);
    assert!(run_migrations(LATEST_MIGRATION_VERSION, &none).is_empty());
    assert!(run_migrations(7, &none).is_empty());
    assert_eq!(run_migrations(5, &none), all[all.len() - 2..].to_vec());
    // A repeated run after a failure adds only the missing columns.
    let present: Vec<String> = vec!["contrast".to_string(), "whites".to_string()];
    let add = migration_005_edit_controls(&present);
    assert_eq!(
        add,
        vec![
            "ALTER TABLE image_edits ADD COLUMN brightness REAL NOT NULL DEFAULT 0.0",
            "ALTER TABLE image_edits ADD COLUMN blacks REAL NOT NULL DEFAULT 0.0",
            "ALTER TABLE image_edits ADD COLUMN saturation REAL NOT NULL DEFAULT 0.0",
        ]
    );
    let stamp = version_stamp(0).unwrap();
    assert_eq!(stamp.params, vec![SqlValue::Integer(6)]);
    assert!(version_stamp(6).is_none());
    assert_eq!(current_version(None), (0, Some(VERSION_SEED)));
    assert_eq!(current_version(Some(SqlValue::Integer(4))), (4, None));
    assert_eq!(current_version(Some(SqlValue::Null)), (0, None));
}

fn registered(name: &str, dim: usize, active: bool) -> RegisteredModel {
    RegisteredModel {
        name: name.to_string(),
        dim: EmbeddingDim(dim),
        active,
    }
}

fn supported() -> Vec<SupportedModel> {
    vec![
        SupportedModel {
            name: "openai/clip-vit-base-patch32".to_string(),
            dim: EmbeddingDim(512),
        },
        SupportedModel {
            name: "laion/CLIP-ViT-L-14-laion2B-s32B-b82K".to_string(),
            dim: EmbeddingDim(768),
        },
    ]
}

#[test]
fn auto_registers_clipper_model_and_activates() {
    let db = vec![registered("openai/clip-vit-base-patch32", 512, true)];
    assert_eq!(
        ensure_and_activate_model(&db, &supported(), "laion/CLIP-ViT-L-14-laion2B-s32B-b82K"),
        Ok(Activation::RegisterAndActivate(EmbeddingDim(768)))
    );
    assert_eq!(
        ensure_and_activate_model(&db, &supported(), "openai/clip-vit-base-patch32"),
        Ok(Activation::Activate)
    );
}

#[test]
fn unknown_model_errors() {
    let db = vec![registered("openai/clip-vit-base-patch32", 512, true)];
    assert_eq!(
        ensure_and_activate_model(&db, &supported(), "nope/not-a-model"),
        Err(ModelError::Unknown)
    );
}

#[test]
fn dim_mismatch_errors() {
    let db = vec![registered("laion/CLIP-ViT-L-14-laion2B-s32B-b82K", 512, false)];
    assert_eq!(
        ensure_and_activate_model(&db, &supported(), "laion/CLIP-ViT-L-14-laion2B-s32B-b82K"),
        Err(ModelError::DimMismatch {
            db: EmbeddingDim(512),
            supported: EmbeddingDim(768)
        })
    );
}

#[test]
fn open_db_seeds_default_only_on_creation() {
    assert_eq!(
        open_db_seeding_default(false, Some("laion/CLIP-ViT-L-14-laion2B-s32B-b82K")),
        Some("laion/CLIP-ViT-L-14-laion2B-s32B-b82K".to_string())
    );
    assert_eq!(
        open_db_seeding_default(true, Some("openai/clip-vit-base-patch32")),
        None
    );
}

#[test]
fn open_db_without_default_uses_baseline() {
    assert_eq!(open_db_seeding_default(false, None), None);
}

#[test]
fn model_list_shows_registered_then_available() {
    let db = vec![registered("custom", 10, true)];
    let rows = list_rows(&db, &supported());
    assert_eq!(rows.len(), 3);
    assert_eq!(model_line(&rows[0]), "* custom (dim 10)");
    assert_eq!(
        model_line(&rows[2]),
        "  laion/CLIP-ViT-L-14-laion2B-s32B-b82K (dim 768) [available, not indexed]"
    );
}

fn legacy() -> LegacyData {
    LegacyData {
        models: vec![
            LegacyModel {
                name: "base".to_string(),
                dim: EmbeddingDim(512),
                table_name: "image_vectors".to_string(),
                is_active: true,
            },
            LegacyModel {
                name: "other".to_string(),
                dim: EmbeddingDim(8),
                table_name: "image_vectors_other".to_string(),
                is_active: false,
            },
        ],
        images: vec![LegacyImage {
            id: 7,
            path: "a.jpg".to_string(),
            hash: "h".to_string(),
            created_at: None,
        }],
        embeddings: vec![EmbeddingTable {
            table: "image_vectors".to_string(),
            rows: vec![LegacyEmbedding {
                image_id: 7,
                blob: vec![1, 2, 3, 4],
            }],
        }],
        thumbnails: vec![LegacyThumbnail {
            hash: "h".to_string(),
            size: 300,
            blob: vec![9],
        }],
        metadata: vec![MetadataRow {
            image_id: 7,
            file_size: Some(10),
            width: None,
            height: None,
            latitude_bits: Some(37.5f64.to_bits()),
            longitude_bits: None,
            camera_make: Some("Canon".to_string()),
            camera_model: None,
            datetime_taken: None,
        }],
        favorites: vec![LegacyFavorite {
            image_id: 7,
            created_at: Some("2024".to_string()),
        }],
        tags: vec![IdName {
            id: 1,
            name: "t".to_string(),
        }],
        image_tags: vec![IdPair {
            first: 7,
            second: 1,
        }],
        collections: vec![],
        collection_images: vec![],
        ui_state: Some("{}".to_string()),
    }
}

#[test]
fn migration_copies_everything_in_order() {
    let data = legacy();
    assert_eq!(data.counts(), (1, 1, 1));
    let list = write_turso(&data).unwrap();
    let sql: Vec<&str> = list.iter().map(|s| s.sql.as_str()).collect();
    assert_eq!(sql.len(), 12);
    assert_eq!(sql[0], "DELETE FROM models");
    assert!(sql[2].contains("image_vectors_other"));
    assert_eq!(
        sql[4],
        "INSERT INTO images (id, path, hash, created_at) VALUES (?1, ?2, ?3, ?4)"
    );
    assert_eq!(
        list[4].params,
        vec![SqlValue::Integer(7), text("a.jpg"), text("h"), SqlValue::Null]
    );
    assert_eq!(
        list[5].params,
        vec![SqlValue::Integer(7), SqlValue::Blob(vec![1, 2, 3, 4])]
    );
    assert_eq!(list[7].params[4], SqlValue::Real(37.5f64.to_bits()));
    assert_eq!(list[11].params, vec![text("{}")]);
    let mut bad = legacy();
    bad.models[1].table_name = "no good".to_string();
    assert_eq!(write_turso(&bad), Err(MigrateError::InvalidTableName));
    let mut bad = legacy();
    bad.embeddings[0].table = "no good".to_string();
    assert_eq!(write_turso(&bad), Err(MigrateError::InvalidTableName));
}

#[test]
fn migration_files() {
    let db = "/lib/.imgfind/imgfind.db";
    assert_eq!(backup_path(db), "/lib/.imgfind/imgfind.db.rusqlite.bak");
    assert_eq!(temp_path(db), "/lib/.imgfind/imgfind.db.turso.tmp");
    assert_eq!(
        sidecars(db),
        (
            "/lib/.imgfind/imgfind.db-wal".to_string(),
            "/lib/.imgfind/imgfind.db-shm".to_string()
        )
    );
    assert!(is_legacy_db(true, false, true));
    assert!(!is_legacy_db(true, true, true));
    assert!(!is_legacy_db(false, false, true));
    assert!(!is_legacy_db(true, false, false));
}

/// The steps of a migration, given whether the questions and deeds go well.
fn steps(force: bool, answers: &[bool]) -> MigrateStep {
    let mut step = MigrateStep::CheckMigrated;
    for ok in answers {
        step = migrate_db(step, *ok, force);
    }
    step
}

#[test]
fn already_migrated_is_noop() {
    let end = steps(false, &[true]);
    assert_eq!(
        outcome(end, (0, 0, 0)),
        Some(MigrateOutcome::AlreadyMigrated)
    );
}

#[test]
fn migration_succeeds_or_rolls_back() {
    // not migrated, present, no backup, no temp, then every deed succeeds.
    let good = [false, true, false, false, true, true, true, true, true, true];
    assert_eq!(
        outcome(steps(false, &good), (3, 4, 2)),
        Some(MigrateOutcome::Migrated {
            images: 3,
            embeddings: 4,
            thumbnails: 2
        })
    );
    let mut failing = good;
    failing[9] = false;
    assert_eq!(
        steps(false, &failing),
        MigrateStep::RollBack(MigrateError::InstallFailed)
    );
    let mut failing = good;
    failing[8] = false;
    assert_eq!(
        steps(false, &failing[..9]),
        MigrateStep::RollBack(MigrateError::LegacySidecars)
    );
    assert_eq!(
        migrate_db(
            MigrateStep::RollBack(MigrateError::LegacySidecars),
            true,
            false
        ),
        MigrateStep::Fail(MigrateError::LegacySidecars)
    );
    let errors = [
        (1, MigrateError::NoDatabase),
        (4, MigrateError::ReadFailed),
        (5, MigrateError::WriteFailed),
        (6, MigrateError::TempSidecars),
        (7, MigrateError::BackupFailed),
    ];
    for (at, error) in errors {
        let mut failing = good;
        failing[at] = false;
        assert_eq!(steps(false, &failing[..at + 1]), MigrateStep::Fail(error));
    }
    assert_eq!(
        steps(false, &[false, true, true]),
        MigrateStep::Fail(MigrateError::BackupExists)
    );
    assert_eq!(steps(true, &[false, true, true]), MigrateStep::CheckTemp);
    assert_eq!(
        steps(false, &[false, true, false, true, false]),
        MigrateStep::Fail(MigrateError::StaleTemp)
    );
    assert_eq!(outcome(MigrateStep::Read, (0, 0, 0)), None);
}

#[test]
fn a_view_shows_all_or_a_selection() {
    let at = |n: usize| -> Vec<GridItem> { (0..n).map(|_| item(Some((0, 0)), None)).collect() };
    let few = select_in_view(&at(99), false);
    assert_eq!(few.shown, (0..99).collect::<Vec<usize>>());
    assert_eq!(few.original_count, 99);
    assert!(few.jitter);
    let many = select_in_view(&at(100), false);
    assert_eq!(many.shown, vec![0, 1]);
    assert_eq!(many.original_count, 100);
    assert!(many.jitter);
    let close = select_in_view(&at(100), true);
    assert_eq!(close.shown.len(), 100);
    assert!(!close.jitter);
}
