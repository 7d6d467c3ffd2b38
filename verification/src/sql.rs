//! Values bound to the parameters of an SQL statement.

use vstd::prelude::*;

verus! {

/// A value bound to a `?` of a statement.
#[derive(Debug, PartialEq)]
pub enum SqlValue {
    Null,
    Integer(i64),
    /// The bits of a double-precision number.
    Real(u64),
    Text(String),
    Blob(Vec<u8>),
}

/// A bound value as plain data.
pub enum SqlModel {
    Null,
    Integer(int),
    Real(u64),
    Text(Seq<char>),
    Blob(Seq<u8>),
}

impl View for SqlValue {
    type V = SqlModel;

    open spec fn view(&self) -> SqlModel {
        match *self {
            SqlValue::Null => SqlModel::Null,
            SqlValue::Integer(i) => SqlModel::Integer(i as int),
            SqlValue::Real(bits) => SqlModel::Real(bits),
            SqlValue::Text(s) => SqlModel::Text(s@),
            SqlValue::Blob(b) => SqlModel::Blob(b@),
        }
    }
}

/// Bound values as plain data.
pub open spec fn values(list: Seq<SqlValue>) -> Seq<SqlModel> {
    list.map_values(|v: SqlValue| v@)
}

/// An optional number as a bound value.
pub open spec fn opt_int_model(v: Option<i64>) -> SqlModel {
    match v {
        Some(i) => SqlModel::Integer(i as int),
        None => SqlModel::Null,
    }
}

/// Optional bits of a double-precision number as a bound value.
pub open spec fn opt_real_model(v: Option<u64>) -> SqlModel {
    match v {
        Some(bits) => SqlModel::Real(bits),
        None => SqlModel::Null,
    }
}

/// An optional text as a bound value.
pub open spec fn opt_text_model(v: Option<Seq<char>>) -> SqlModel {
    match v {
        Some(s) => SqlModel::Text(s),
        None => SqlModel::Null,
    }
}

/// The text of an optional string.
pub open spec fn text_of(v: Option<String>) -> Option<Seq<char>> {
    match v {
        Some(s) => Some(s@),
        None => None,
    }
}

/// Wrap an optional `i64` as a value (`None` is `Null`).
pub fn opt_i64(v: Option<i64>) -> (r: SqlValue)
    ensures
        r@ == opt_int_model(v),
{
    match v {
        Some(i) => SqlValue::Integer(i),
        None => SqlValue::Null,
    }
}

/// Wrap the optional bits of a double-precision number as a value.
pub fn opt_f64(v: Option<u64>) -> (r: SqlValue)
    ensures
        r@ == opt_real_model(v),
{
    match v {
        Some(bits) => SqlValue::Real(bits),
        None => SqlValue::Null,
    }
}

/// Wrap a copy of an optional string as a value (`None` is `Null`).
pub fn opt_text(v: &Option<String>) -> (r: SqlValue)
    ensures
        r@ == opt_text_model(text_of(*v)),
{
    match v {
        Some(s) => SqlValue::Text(s.clone()),
        None => SqlValue::Null,
    }
}

/// A column that has to be a number.
pub fn col_i64(v: &SqlValue) -> (r: Option<i64>)
    ensures
        r == match *v {
            SqlValue::Integer(i) => Some(i),
            _ => None,
        },
{
    match v {
        SqlValue::Integer(i) => Some(*i),
        _ => None,
    }
}

/// A column that has to be a text.
pub fn col_text(v: SqlValue) -> (r: Option<String>)
    ensures
        match v {
            SqlValue::Text(s) => r == Some(s),
            _ => r is None,
        },
{
    match v {
        SqlValue::Text(s) => Some(s),
        _ => None,
    }
}

} // verus!
