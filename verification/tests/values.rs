//! Colors, ids, units, sorting.

use imgfind::colors::BrushColor;
use imgfind::ids::{CollectionId, ImageId, TagId};
use imgfind::sort::{dir_kw, ext_sql_expr, order_by_clause, Sort, SortDir, SortKey};
use imgfind::units::{
    DistanceThreshold, EmbeddingDim, FileSize, MaxK, ThresholdError, ThumbnailSize, ThumbnailSpec,
};

#[test]
fn letter_index_roundtrip() {
    for c in BrushColor::ALL {
        assert_eq!(BrushColor::from_letter(c.letter()), Some(c));
        assert_eq!(BrushColor::from_index(c.index()), Some(c));
    }
}

#[test]
fn index_is_stable_order() {
    assert_eq!(BrushColor::Red.index(), 0);
    assert_eq!(BrushColor::Blue.index(), 4);
}

#[test]
fn unknown_letter_is_none() {
    assert_eq!(BrushColor::from_letter("x"), None);
    assert_eq!(BrushColor::from_letter("m"), None);
}

#[test]
fn unknown_index_is_none() {
    assert_eq!(BrushColor::from_index(5), None);
    assert_eq!(BrushColor::from_letter(""), None);
    assert_eq!(BrushColor::from_letter("rr"), None);
}

#[test]
fn thumbnail_size_exposes_pixel_value() {
    assert_eq!(ThumbnailSize(512).get(), 512);
    assert_eq!(ThumbnailSize(300), ThumbnailSize(300));
}

#[test]
fn thumbnail_spec_db_size_round_trips() {
    let full = ThumbnailSpec::FullSize;
    assert_eq!(full.to_db_size(), 0);
    assert_eq!(
        ThumbnailSpec::ScaleSize(ThumbnailSize(2048)).to_db_size(),
        2048
    );
    // round-trip both ways
    assert_eq!(ThumbnailSpec::from_db_size(0), full);
    assert_eq!(
        ThumbnailSpec::from_db_size(300),
        ThumbnailSpec::ScaleSize(ThumbnailSize(300))
    );
    for spec in [full, ThumbnailSpec::ScaleSize(ThumbnailSize(512))] {
        assert_eq!(ThumbnailSpec::from_db_size(spec.to_db_size()), spec);
    }
}

#[test]
fn thumbnail_size_converts_to_scale_spec() {
    let spec: ThumbnailSpec = ThumbnailSize(300).into();
    assert_eq!(spec, ThumbnailSpec::ScaleSize(ThumbnailSize(300)));
}

#[test]
fn newtypes_hold_their_values() {
    assert_eq!(FileSize(1024).bytes(), 1024);
    assert!(FileSize(10) < FileSize(20));
    assert_eq!(MaxK(100).get(), 100);
    assert_eq!(EmbeddingDim(768).get(), 768);
    assert_eq!(ImageId::from(7).get(), 7);
    assert_eq!(TagId::from(8).get(), 8);
    assert_eq!(CollectionId::from(9).get(), 9);
}

fn parse_threshold(s: &str) -> Result<f32, ThresholdError> {
    DistanceThreshold::checked(s.parse::<f32>().ok().map(f32::to_bits))
        .map(|t| f32::from_bits(t.bits))
}

#[test]
fn parse_threshold_accepts_valid_values() {
    assert_eq!(parse_threshold("1.3").unwrap(), 1.3);
    assert_eq!(parse_threshold("0.0").unwrap(), 0.0);
    assert_eq!(parse_threshold("-0.0").unwrap(), 0.0);
}

#[test]
fn parse_threshold_rejects_invalid_values() {
    assert!(parse_threshold("-1.0").is_err());
    assert!(parse_threshold("inf").is_err());
    assert!(parse_threshold("-inf").is_err());
    assert!(parse_threshold("nan").is_err());
    assert!(parse_threshold("abc").is_err());
    assert_eq!(parse_threshold("abc"), Err(ThresholdError::InvalidNumber));
    assert_eq!(parse_threshold("-1.0"), Err(ThresholdError::OutOfRange));
}

fn s(key: SortKey, dir: SortDir) -> Sort {
    Sort { key, dir }
}

#[test]
fn name_clause_uses_path_only() {
    assert_eq!(
        order_by_clause(&s(SortKey::Name, SortDir::Asc)),
        "i.path ASC"
    );
    assert_eq!(
        order_by_clause(&s(SortKey::Name, SortDir::Desc)),
        "i.path DESC"
    );
}

#[test]
fn size_clause_nulls_last_then_path_tiebreak() {
    assert_eq!(
        order_by_clause(&s(SortKey::Size, SortDir::Asc)),
        "m.file_size IS NULL, m.file_size ASC, i.path ASC"
    );
    assert_eq!(
        order_by_clause(&s(SortKey::Size, SortDir::Desc)),
        "m.file_size IS NULL, m.file_size DESC, i.path ASC"
    );
}

#[test]
fn type_clause_uses_ext_expr_then_path_tiebreak() {
    // ext_sql_expr() is the shared extension expression; secondary key is path ASC.
    let c = order_by_clause(&s(SortKey::Type, SortDir::Desc));
    assert_eq!(c, format!("{} DESC, i.path ASC", ext_sql_expr()));
}

#[test]
fn default_sort_is_by_name() {
    assert_eq!(Sort::default(), s(SortKey::Name, SortDir::Asc));
    assert_eq!(dir_kw(SortDir::Desc), "DESC");
}
