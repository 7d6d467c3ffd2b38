//! The metadata of images as it is stored and read again.

use vstd::prelude::*;
use vstd::string::*;
use crate::database::{is_statement, Database, Statement};
use crate::ids::ImageId;
use crate::paths::RelativePath;
use crate::records::with_one;
use crate::sql::{
    opt_f64, opt_i64, opt_int_model, opt_real_model, opt_text, opt_text_model, text_of, values,
    SqlModel, SqlValue,
};

verus! {

/// An image's metadata as it is stored. The position is a pair of
/// double-precision numbers, by their bits: both are there or neither.
#[derive(Debug, Clone, PartialEq)]
pub struct StoredMetadata {
    pub file_size: Option<u64>,
    pub width: Option<u32>,
    pub height: Option<u32>,
    pub coords: Option<(u64, u64)>,
    pub camera_make: Option<String>,
    pub camera_model: Option<String>,
    pub datetime_taken: Option<String>,
}

/// Stored metadata as plain data.
pub struct MetadataModel {
    pub file_size: Option<u64>,
    pub width: Option<u32>,
    pub height: Option<u32>,
    pub coords: Option<(u64, u64)>,
    pub camera_make: Option<Seq<char>>,
    pub camera_model: Option<Seq<char>>,
    pub datetime_taken: Option<Seq<char>>,
}

impl View for StoredMetadata {
    type V = MetadataModel;

    open spec fn view(&self) -> MetadataModel {
        MetadataModel {
            file_size: self.file_size,
            width: self.width,
            height: self.height,
            coords: self.coords,
            camera_make: text_of(self.camera_make),
            camera_model: text_of(self.camera_model),
            datetime_taken: text_of(self.datetime_taken),
        }
    }
}

/// The columns that hold an image's metadata: file size, width, height,
/// latitude, longitude, camera make, camera model, time taken.
pub open spec fn metadata_columns(m: MetadataModel) -> Seq<SqlModel> {
    seq![
        opt_int_model(
            match m.file_size {
                Some(n) => Some(n as i64),
                None => None,
            },
        ),
        opt_int_model(
            match m.width {
                Some(n) => Some(n as i64),
                None => None,
            },
        ),
        opt_int_model(
            match m.height {
                Some(n) => Some(n as i64),
                None => None,
            },
        ),
        opt_real_model(
            match m.coords {
                Some((lat, _)) => Some(lat),
                None => None,
            },
        ),
        opt_real_model(
            match m.coords {
                Some((_, lon)) => Some(lon),
                None => None,
            },
        ),
        opt_text_model(m.camera_make),
        opt_text_model(m.camera_model),
        opt_text_model(m.datetime_taken),
    ]
}

/// A nullable number: anything but a number counts as missing.
pub open spec fn opt_int_of(v: SqlModel) -> Option<i64> {
    match v {
        SqlModel::Integer(i) => Some(i as i64),
        _ => None,
    }
}

/// A nullable text: anything but a text counts as missing.
pub open spec fn opt_text_of(v: SqlModel) -> Option<Seq<char>> {
    match v {
        SqlModel::Text(s) => Some(s),
        _ => None,
    }
}

/// The metadata that a row of columns holds, `coords` being the position that
/// its two columns stand for.
pub open spec fn metadata_of(row: Seq<SqlModel>, coords: Option<(u64, u64)>) -> MetadataModel {
    MetadataModel {
        file_size: match opt_int_of(row[0]) {
            Some(i) => Some(i as u64),
            None => None,
        },
        width: match opt_int_of(row[1]) {
            Some(i) => Some(i as u32),
            None => None,
        },
        height: match opt_int_of(row[2]) {
            Some(i) => Some(i as u32),
            None => None,
        },
        coords,
        camera_make: opt_text_of(row[5]),
        camera_model: opt_text_of(row[6]),
        datetime_taken: opt_text_of(row[7]),
    }
}

/// The position that two columns hold: their two numbers, where both have
/// one.
pub open spec fn coords_of(lat: SqlModel, lon: SqlModel) -> Option<(u64, u64)> {
    match (lat, lon) {
        (SqlModel::Real(a), SqlModel::Real(b)) => Some((a, b)),
        _ => None,
    }
}

/// Reading a nullable number.
fn col_opt_i64(v: &SqlValue) -> (r: Option<i64>)
    ensures
        r == opt_int_of(v@),
{
    match v {
        SqlValue::Integer(i) => Some(*i),
        _ => None,
    }
}

/// Reading a nullable text.
fn col_opt_text(v: &SqlValue) -> (r: Option<String>)
    ensures
        text_of(r) == opt_text_of(v@),
{
    match v {
        SqlValue::Text(s) => Some(s.clone()),
        _ => None,
    }
}

impl Database {
    /// Insert or update metadata for an image.
    pub fn insert_or_update_metadata(image_id: ImageId, m: &StoredMetadata) -> (r: Statement)
        ensures
            is_statement(
                r,
                "INSERT OR REPLACE INTO image_metadata (image_id, file_size, width, height, latitude, longitude, camera_make, camera_model, datetime_taken) VALUES (?1, ?2, ?3, ?4, ?5, ?6, ?7, ?8, ?9)"@,
                seq![SqlModel::Integer(image_id.0 as int)] + metadata_columns(m@),
            ),
    {
        let file_size: Option<i64> = match m.file_size {
            Some(n) => Some(n as i64),
            None => None,
        };
        let width: Option<i64> = match m.width {
            Some(n) => Some(n as i64),
            None => None,
        };
        let height: Option<i64> = match m.height {
            Some(n) => Some(n as i64),
            None => None,
        };
        let lat: Option<u64> = match m.coords {
            Some((lat, _)) => Some(lat),
            None => None,
        };
        let lon: Option<u64> = match m.coords {
            Some((_, lon)) => Some(lon),
            None => None,
        };
        let params: Vec<SqlValue> = vec![
            SqlValue::Integer(image_id.get()),
            opt_i64(file_size),
            opt_i64(width),
            opt_i64(height),
            opt_f64(lat),
            opt_f64(lon),
            opt_text(&m.camera_make),
            opt_text(&m.camera_model),
            opt_text(&m.datetime_taken),
        ];
        assert(values(params@) == seq![SqlModel::Integer(image_id.0 as int)] + metadata_columns(
            m@,
        ));
        Statement {
            sql:
                "INSERT OR REPLACE INTO image_metadata (image_id, file_size, width, height, latitude, longitude, camera_make, camera_model, datetime_taken) VALUES (?1, ?2, ?3, ?4, ?5, ?6, ?7, ?8, ?9)".to_owned(),
            params,
        }
    }

    /// An image's stored metadata by its stored path: at most one row of the
    /// eight columns.
    pub fn get_image_metadata(path: &RelativePath) -> (r: Statement)
        ensures
            is_statement(
                r,
                "SELECT m.file_size, m.width, m.height, m.latitude, m.longitude, m.camera_make, m.camera_model, m.datetime_taken FROM image_metadata m JOIN images i ON i.id = m.image_id WHERE i.path = ?1"@,
                seq![SqlModel::Text(path.0@)],
            ),
    {
        with_one(
            "SELECT m.file_size, m.width, m.height, m.latitude, m.longitude, m.camera_make, m.camera_model, m.datetime_taken FROM image_metadata m JOIN images i ON i.id = m.image_id WHERE i.path = ?1",
            SqlValue::Text(path.0.clone()),
        )
    }

    /// Stored metadata, from its row of eight columns. Dimensions and size are
    /// stored as signed numbers, and are cast back here. `coords` is the
    /// position in the fourth and the fifth column, where a whole number may
    /// stand for a double-precision one.
    pub fn read_metadata(row: &Vec<SqlValue>, coords: Option<(u64, u64)>) -> (r: StoredMetadata)
        requires
            row@.len() == 8,
        ensures
            r@ == metadata_of(values(row@), coords),
    {
        let ghost all = values(row@);
        assert(forall|k: int| 0 <= k < 8 ==> all[k] == #[trigger] row@[k]@);
        StoredMetadata {
            file_size: match col_opt_i64(&row[0]) {
                Some(i) => Some(i as u64),
                None => None,
            },
            width: match col_opt_i64(&row[1]) {
                Some(i) => Some(i as u32),
                None => None,
            },
            height: match col_opt_i64(&row[2]) {
                Some(i) => Some(i as u32),
                None => None,
            },
            coords,
            camera_make: col_opt_text(&row[5]),
            camera_model: col_opt_text(&row[6]),
            datetime_taken: col_opt_text(&row[7]),
        }
    }
}

/// Metadata that is stored and read again is the same metadata.
pub proof fn stored_metadata_reads_back(m: MetadataModel)
    ensures
        ({
            let row = metadata_columns(m);
            metadata_of(row, coords_of(row[3], row[4])) == m
        }),
{
    if let Some(n) = m.file_size {
        assert((n as i64) as u64 == n) by (bit_vector);
    }
}

/// Every piece of metadata goes into its own column, in the order that the
/// columns are named in: file size, width, height, latitude, longitude, make,
/// model, time taken. What is missing is stored as nothing.
pub proof fn every_piece_has_its_column(m: MetadataModel)
    ensures
        metadata_columns(m).len() == 8,
        m.file_size matches Some(n) ==> metadata_columns(m)[0] == SqlModel::Integer(
            (n as i64) as int,
        ),
        m.width matches Some(n) ==> metadata_columns(m)[1] == SqlModel::Integer(n as int),
        m.height matches Some(n) ==> metadata_columns(m)[2] == SqlModel::Integer(n as int),
        m.coords matches Some(c) ==> metadata_columns(m)[3] == SqlModel::Real(c.0)
            && metadata_columns(m)[4] == SqlModel::Real(c.1),
        m.camera_make matches Some(t) ==> metadata_columns(m)[5] == SqlModel::Text(t),
        m.camera_model matches Some(t) ==> metadata_columns(m)[6] == SqlModel::Text(t),
        m.datetime_taken matches Some(t) ==> metadata_columns(m)[7] == SqlModel::Text(t),
        m.file_size is None <==> metadata_columns(m)[0] is Null,
        m.width is None <==> metadata_columns(m)[1] is Null,
        m.height is None <==> metadata_columns(m)[2] is Null,
        m.coords is None <==> metadata_columns(m)[3] is Null,
        m.coords is None <==> metadata_columns(m)[4] is Null,
        m.camera_make is None <==> metadata_columns(m)[5] is Null,
        m.camera_model is None <==> metadata_columns(m)[6] is Null,
        m.datetime_taken is None <==> metadata_columns(m)[7] is Null,
{
}

} // verus!
