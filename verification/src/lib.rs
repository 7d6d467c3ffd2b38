//! imgfind: the rules of a semantic image search engine, verified.

pub mod colors;
pub mod config;
pub mod config_commands;
pub mod database;
pub mod decode;
pub mod exif;
pub mod filters;
pub mod grid;
pub mod hash_tables;
pub mod hashing;
pub mod ids;
pub mod image_rows;
pub mod indexing;
pub mod listing;
pub mod locate;
pub mod migrate;
pub mod models;
pub mod path_model;
pub mod paths;
pub mod picture;
pub mod processing;
pub mod records;
pub mod schema;
pub mod search;
pub mod sort;
pub mod sql;
pub mod status;
pub mod stored_metadata;
pub mod telnet;
pub mod text;
pub mod thumbnail;
pub mod tui;
pub mod ui_state;
pub mod units;
pub mod vector_sql;
pub mod web;
