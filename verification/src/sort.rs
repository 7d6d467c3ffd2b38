//! Shared sort model for browse/search ordering (CLI + GUI).

use vstd::prelude::*;
use vstd::string::*;
use crate::ids::ImageId;
use crate::units::FileSize;

verus! {

#[derive(Debug, Clone, Copy, PartialEq, Eq, Structural)]
pub enum SortKey {
    Name,
    Size,
    Type,
}

#[derive(Debug, Clone, Copy, PartialEq, Eq, Structural)]
pub enum SortDir {
    Asc,
    Desc,
}

#[derive(Debug, Clone, Copy, PartialEq, Eq, Structural)]
pub struct Sort {
    pub key: SortKey,
    pub dir: SortDir,
}

impl Default for Sort {
    fn default() -> (r: Self)
        ensures
            r == (Sort { key: SortKey::Name, dir: SortDir::Asc }),
    {
        Sort { key: SortKey::Name, dir: SortDir::Asc }
    }
}

/// One image as listings show it.
#[derive(Debug, Clone, PartialEq)]
pub struct RowMeta {
    pub id: ImageId,
    pub path: String,
    pub size: Option<FileSize>,
    pub ext: String,
}

/// The text of [`ext_sql_expr`].
pub open spec fn ext_sql() -> Seq<char> {
    "lower(CASE WHEN instr(i.path, '.') = 0 THEN '' ELSE replace(i.path, rtrim(i.path, replace(i.path, '.', '')), '') END)"@
}

/// SQL expression extracting the lowercased file extension from `i.path`,
/// the same as [`crate::database::ext_of_path`] computes (empty string when
/// there is no dot). It takes the substring after the last '.'.
pub fn ext_sql_expr() -> (r: &'static str)
    ensures
        r@ == ext_sql(),
{
    "lower(CASE WHEN instr(i.path, '.') = 0 THEN '' ELSE replace(i.path, rtrim(i.path, replace(i.path, '.', '')), '') END)"
}

/// The SQL keyword of a direction.
pub open spec fn dir_text(dir: SortDir) -> Seq<char> {
    match dir {
        SortDir::Asc => "ASC"@,
        SortDir::Desc => "DESC"@,
    }
}

pub fn dir_kw(dir: SortDir) -> (r: &'static str)
    ensures
        r@ == dir_text(dir),
{
    match dir {
        SortDir::Asc => "ASC",
        SortDir::Desc => "DESC",
    }
}

/// The text of [`order_by_clause`].
pub open spec fn order_by_text(sort: Sort) -> Seq<char> {
    match sort.key {
        SortKey::Name => "i.path "@ + dir_text(sort.dir),
        SortKey::Size => "m.file_size IS NULL, m.file_size "@ + dir_text(sort.dir)
            + ", i.path ASC"@,
        SortKey::Type => ext_sql() + " "@ + dir_text(sort.dir) + ", i.path ASC"@,
    }
}

/// Build the `ORDER BY` body (without the `ORDER BY` keyword) for a browse query.
/// Size/Type always tie-break on `i.path ASC`; Size sorts NULLs last.
pub fn order_by_clause(sort: &Sort) -> (r: String)
    ensures
        r@ == order_by_text(*sort),
{
    let d: &str = dir_kw(sort.dir);
    match sort.key {
        SortKey::Name => "i.path ".to_owned().concat(d),
        SortKey::Size => "m.file_size IS NULL, m.file_size ".to_owned().concat(d).concat(
            ", i.path ASC",
        ),
        SortKey::Type => ext_sql_expr().to_owned().concat(" ").concat(d).concat(", i.path ASC"),
    }
}

/// The chosen key decides first, in the chosen direction, and turning the
/// direction turns that key alone: images of one size or type come by name
/// in rising order either way, and those without a size come last.
pub proof fn the_chosen_key_decides_first(dir: SortDir)
    ensures
        order_by_text(Sort { key: SortKey::Name, dir }) == "i.path "@ + dir_text(dir),
        order_by_text(Sort { key: SortKey::Size, dir }) == "m.file_size IS NULL, "@ + (
        "m.file_size "@ + dir_text(dir)) + ", i.path ASC"@,
        order_by_text(Sort { key: SortKey::Type, dir }) == ext_sql() + (" "@ + dir_text(dir))
            + ", i.path ASC"@,
        dir_text(SortDir::Asc) == "ASC"@,
        dir_text(SortDir::Desc) == "DESC"@,
{
    reveal_strlit("m.file_size IS NULL, m.file_size ");
    reveal_strlit("m.file_size IS NULL, ");
    reveal_strlit("m.file_size ");
    assert("m.file_size IS NULL, m.file_size "@ == "m.file_size IS NULL, "@ + "m.file_size "@);
    assert(order_by_text(Sort { key: SortKey::Size, dir }) == "m.file_size IS NULL, "@ + (
    "m.file_size "@ + dir_text(dir)) + ", i.path ASC"@);
    assert(order_by_text(Sort { key: SortKey::Type, dir }) == ext_sql() + (" "@ + dir_text(dir))
        + ", i.path ASC"@);
}

} // verus!
