//! Filters and their SQL.

use imgfind::filters::{
    build_filter_clause_turso, Filters, FiltersRepr, GpsFilter, TagFilter, TagMatch,
};
use imgfind::sql::SqlValue;
use imgfind::units::FileSize;
use serde_json::Value;

fn text(s: &str) -> SqlValue {
    SqlValue::Text(s.to_string())
}

#[test]
fn carry_tag_filter_preserves_tags_and_size() {
    let mut rebuilt = Filters {
        size_min: Some(FileSize(1024)),
        size_max: Some(FileSize(10 * 1024 * 1024)),
        ..Default::default()
    };
    let existing = Filters {
        tag_filter: TagFilter::Active {
            tags: vec!["a".into(), "b".into()],
            match_mode: TagMatch::AnyOf,
        },
        ..Default::default()
    };
    rebuilt.carry_tag_filter_from(&existing);
    assert_eq!(
        rebuilt.tag_filter,
        TagFilter::Active {
            tags: vec!["a".to_string(), "b".to_string()],
            match_mode: TagMatch::AnyOf,
        }
    );
    // size fields must be untouched
    assert_eq!(rebuilt.size_min, Some(FileSize(1024)));
    assert_eq!(rebuilt.size_max, Some(FileSize(10 * 1024 * 1024)));
}

#[test]
fn empty_filters_yield_no_clause() {
    let (sql, params) = build_filter_clause_turso(&Filters::default());
    assert_eq!(sql, "");
    assert!(params.is_empty());
}

#[test]
fn size_both_bounds() {
    let f = Filters {
        size_min: Some(FileSize(100)),
        size_max: Some(FileSize(5000)),
        ..Default::default()
    };
    let (sql, params) = build_filter_clause_turso(&f);
    assert_eq!(sql, " AND m.file_size >= ? AND m.file_size <= ?");
    assert_eq!(params, vec![SqlValue::Integer(100), SqlValue::Integer(5000)]);
}

#[test]
fn size_one_sided() {
    let f = Filters {
        size_min: Some(FileSize(100)),
        ..Default::default()
    };
    let (sql, params) = build_filter_clause_turso(&f);
    assert_eq!(sql, " AND m.file_size >= ?");
    assert_eq!(params, vec![SqlValue::Integer(100)]);
}

#[test]
fn extensions_become_lowercased_like_params() {
    let f = Filters {
        extensions: vec!["JPG".into(), "png".into()],
        ..Default::default()
    };
    let (sql, params) = build_filter_clause_turso(&f);
    assert_eq!(sql, " AND (lower(i.path) LIKE ? OR lower(i.path) LIKE ?)");
    assert_eq!(params, vec![text("%.jpg"), text("%.png")]);
}

#[test]
fn gps_has_and_no() {
    let has = build_filter_clause_turso(&Filters {
        gps: GpsFilter::HasGps,
        ..Default::default()
    })
    .0;
    assert_eq!(
        has,
        " AND (m.latitude IS NOT NULL AND m.longitude IS NOT NULL)"
    );
    let no = build_filter_clause_turso(&Filters {
        gps: GpsFilter::NoGps,
        ..Default::default()
    })
    .0;
    assert_eq!(no, " AND (m.latitude IS NULL OR m.longitude IS NULL)");
}

#[test]
fn combined_filters_join_with_and() {
    let f = Filters {
        size_min: Some(FileSize(10)),
        size_max: None,
        extensions: vec!["nef".into()],
        gps: GpsFilter::HasGps,
        ..Default::default()
    };
    let (sql, params) = build_filter_clause_turso(&f);
    assert_eq!(
        sql,
        " AND m.file_size >= ? AND (lower(i.path) LIKE ?) AND (m.latitude IS NOT NULL AND m.longitude IS NOT NULL)"
    );
    assert_eq!(params, vec![SqlValue::Integer(10), text("%.nef")]);
}

#[test]
fn tags_disabled_yields_no_clause() {
    let f = Filters {
        tag_filter: TagFilter::Inactive {
            tags: vec!["a".into(), "b".into()],
            match_mode: TagMatch::default(),
        },
        ..Default::default()
    };
    assert_eq!(build_filter_clause_turso(&f).0, "");
}

#[test]
fn tags_all_of_emits_exists_per_tag() {
    let f = Filters {
        tag_filter: TagFilter::Active {
            tags: vec!["a".into(), "b".into()],
            match_mode: TagMatch::AllOf,
        },
        ..Default::default()
    };
    let (sql, params) = build_filter_clause_turso(&f);
    assert_eq!(
        sql,
        " AND EXISTS (SELECT 1 FROM image_tags it JOIN tags t ON t.id = it.tag_id WHERE it.image_id = i.id AND t.name = ?) AND EXISTS (SELECT 1 FROM image_tags it JOIN tags t ON t.id = it.tag_id WHERE it.image_id = i.id AND t.name = ?)"
    );
    assert_eq!(params, vec![text("a"), text("b")]);
}

#[test]
fn tags_any_of_emits_single_in_clause() {
    let f = Filters {
        tag_filter: TagFilter::Active {
            tags: vec!["a".into(), "b".into()],
            match_mode: TagMatch::AnyOf,
        },
        ..Default::default()
    };
    let (sql, params) = build_filter_clause_turso(&f);
    assert_eq!(
        sql,
        " AND EXISTS (SELECT 1 FROM image_tags it JOIN tags t ON t.id = it.tag_id WHERE it.image_id = i.id AND t.name IN (?, ?))"
    );
    assert_eq!(params, vec![text("a"), text("b")]);
}

#[test]
fn tags_combine_after_size() {
    let f = Filters {
        size_min: Some(FileSize(5)),
        tag_filter: TagFilter::Active {
            tags: vec!["x".into()],
            match_mode: TagMatch::default(),
        },
        ..Default::default()
    };
    let (sql, params) = build_filter_clause_turso(&f);
    assert_eq!(
        sql,
        " AND m.file_size >= ? AND EXISTS (SELECT 1 FROM image_tags it JOIN tags t ON t.id = it.tag_id WHERE it.image_id = i.id AND t.name = ?)"
    );
    assert_eq!(params, vec![SqlValue::Integer(5), text("x")]);
}

#[test]
fn hide_failed_emits_not_exists_clause() {
    let f = Filters {
        hide_failed: true,
        ..Default::default()
    };
    let (sql, params) = build_filter_clause_turso(&f);
    assert_eq!(
        sql,
        " AND NOT EXISTS (SELECT 1 FROM thumbnail_failures f WHERE f.image_hash = i.hash)"
    );
    assert!(params.is_empty());
}

#[test]
fn hide_failed_default_false_emits_nothing() {
    let (sql, _) = build_filter_clause_turso(&Filters::default());
    assert!(!sql.contains("thumbnail_failures"));
}

#[test]
fn placeholders_and_values_fit_together() {
    let f = Filters {
        size_min: Some(FileSize(1)),
        size_max: Some(FileSize(2)),
        extensions: vec!["a?".into(), "b".into(), "c".into()],
        gps: GpsFilter::NoGps,
        tag_filter: TagFilter::Active {
            tags: vec!["?".into(), "y".into()],
            match_mode: TagMatch::AnyOf,
        },
        hide_failed: true,
    };
    let (sql, params) = build_filter_clause_turso(&f);
    assert_eq!(sql.matches('?').count(), params.len());
    assert_eq!(params.len(), 7);
}

#[test]
fn tag_filter_keeps_its_tags_when_toggled() {
    let mut t = TagFilter::default();
    assert!(!t.is_enabled());
    assert!(t.active_tags().is_none());
    t.tags_mut().push("a".to_string());
    t.toggle_enabled();
    assert!(t.is_enabled());
    let (tags, mode) = t.active_tags().unwrap();
    assert_eq!(tags, ["a".to_string()]);
    assert_eq!(mode, TagMatch::AllOf);
    t.toggle_match_mode();
    assert_eq!(t.match_mode(), TagMatch::AnyOf);
    t.toggle_match_mode();
    t.toggle_enabled();
    assert!(t.active_tags().is_none());
    assert_eq!(t.tags(), ["a".to_string()]);
    t.set_tags(vec!["b".to_string(), "c".to_string()]);
    assert_eq!(t.tags().len(), 2);
    assert!(!t.is_enabled());
}

#[test]
fn stored_filters_come_back() {
    let f = Filters {
        size_min: Some(FileSize(1024)),
        size_max: Some(FileSize(5_000_000)),
        tag_filter: TagFilter::Active {
            tags: vec!["a".into()],
            match_mode: TagMatch::AnyOf,
        },
        hide_failed: true,
        ..Default::default()
    };
    let repr = FiltersRepr::from(&f);
    assert!(repr.tags_enabled);
    assert_eq!(repr.tags, vec!["a".to_string()]);
    assert_eq!(Filters::from(repr), f);
    // Enabled without tags comes back disabled.
    let empty = Filters {
        tag_filter: TagFilter::Active {
            tags: vec![],
            match_mode: TagMatch::AnyOf,
        },
        ..Default::default()
    };
    let back = Filters::from(FiltersRepr::from(&empty));
    assert!(!back.tag_filter.is_enabled());
    assert_eq!(back.tag_filter.match_mode(), TagMatch::AnyOf);
    assert!(back.tag_filter.tags().is_empty());
    // Disabled with tags keeps them.
    let off = Filters {
        tag_filter: TagFilter::Inactive {
            tags: vec!["a".into(), "b".into()],
            match_mode: TagMatch::AllOf,
        },
        ..Default::default()
    };
    assert_eq!(Filters::from(FiltersRepr::from(&off)), off);
}

/// The written form of filters: one flat set of keys.
fn to_json(f: &Filters) -> String {
    let repr = FiltersRepr::from(f);
    let names = |list: &Vec<String>| Value::Array(list.iter().cloned().map(Value::String).collect());
    let size = |s: Option<FileSize>| s.map_or(Value::Null, |b| Value::from(b.bytes()));
    let mut keys = serde_json::Map::new();
    keys.insert("size_min".to_string(), size(repr.size_min));
    keys.insert("size_max".to_string(), size(repr.size_max));
    keys.insert("extensions".to_string(), names(&repr.extensions));
    let gps = match repr.gps {
        GpsFilter::Any => "any",
        GpsFilter::HasGps => "hasgps",
        GpsFilter::NoGps => "nogps",
    };
    keys.insert("gps".to_string(), Value::from(gps));
    keys.insert("tags".to_string(), names(&repr.tags));
    let mode = match repr.tag_match {
        TagMatch::AllOf => "allof",
        TagMatch::AnyOf => "anyof",
    };
    keys.insert("tag_match".to_string(), Value::from(mode));
    keys.insert("tags_enabled".to_string(), Value::from(repr.tags_enabled));
    keys.insert("hide_failed".to_string(), Value::from(repr.hide_failed));
    Value::Object(keys).to_string()
}

fn from_json(json: &str) -> Filters {
    let v: Value = serde_json::from_str(json).unwrap();
    let names = |key: &str| -> Vec<String> {
        v[key]
            .as_array()
            .unwrap()
            .iter()
            .map(|s| s.as_str().unwrap().to_string())
            .collect()
    };
    Filters::from(FiltersRepr {
        size_min: v["size_min"].as_i64().map(FileSize),
        size_max: v["size_max"].as_i64().map(FileSize),
        extensions: names("extensions"),
        gps: match v["gps"].as_str() {
            Some("hasgps") => GpsFilter::HasGps,
            Some("nogps") => GpsFilter::NoGps,
            _ => GpsFilter::Any,
        },
        tags: names("tags"),
        tag_match: match v["tag_match"].as_str() {
            Some("anyof") => TagMatch::AnyOf,
            _ => TagMatch::AllOf,
        },
        tags_enabled: v["tags_enabled"].as_bool().unwrap_or(false),
        hide_failed: v["hide_failed"].as_bool().unwrap_or(false),
    })
}

#[test]
fn old_flat_filters_json_deserializes_into_tag_filter() {
    let json = r#"{"size_min":null,"size_max":null,"extensions":[],"gps":"any","tags":["a"],"tag_match":"anyof","tags_enabled":true}"#;
    let f: Filters = from_json(json);
    match &f.tag_filter {
        TagFilter::Active { tags, match_mode } => {
            assert_eq!(tags, &vec!["a".to_string()]);
            assert_eq!(*match_mode, TagMatch::AnyOf);
        }
        _ => panic!("expected Active"),
    }
}

#[test]
fn disabled_with_tags_is_inactive_retaining_them() {
    let json = r#"{"size_min":null,"size_max":null,"extensions":[],"gps":"any","tags":["a","b"],"tag_match":"allof","tags_enabled":false}"#;
    let f: Filters = from_json(json);
    match &f.tag_filter {
        TagFilter::Inactive { tags, .. } => assert_eq!(tags.len(), 2),
        _ => panic!("expected Inactive retaining tags"),
    }
}

#[test]
fn filters_serialize_to_flat_on_disk_shape() {
    let f = Filters {
        tag_filter: TagFilter::Active {
            tags: vec!["a".into()],
            match_mode: TagMatch::AnyOf,
        },
        ..Default::default()
    };
    let json = to_json(&f);
    assert!(json.contains("\"tags\":[\"a\"]"), "{json}");
    assert!(json.contains("\"tag_match\":\"anyof\""), "{json}");
    assert!(json.contains("\"tags_enabled\":true"), "{json}");
    assert_eq!(from_json(&json), f);
}

#[test]
fn filters_serialize_size_bounds_as_bare_integers() {
    let f = Filters {
        size_min: Some(FileSize(1024)),
        size_max: Some(FileSize(5_000_000)),
        ..Default::default()
    };
    let json = to_json(&f);
    assert!(json.contains("\"size_min\":1024"), "{json}");
    assert!(json.contains("\"size_max\":5000000"), "{json}");
    assert_eq!(from_json(&json), f);
}

#[test]
fn hide_failed_round_trips_and_defaults_when_absent() {
    let f = Filters {
        hide_failed: true,
        ..Default::default()
    };
    assert_eq!(from_json(&to_json(&f)), f);
    let old = r#"{"size_min":null,"size_max":null,"extensions":[],"gps":"any","tags":[],"tag_match":"allof","tags_enabled":false}"#;
    assert!(!from_json(old).hide_failed);
}
