//! Query building for the quickdb database layer: SQL text and parameter
//! lists for the SQL back ends, query documents for the document store,
//! and the value conversions they rely on.

pub mod text;
pub mod json;
pub mod json_input;
pub mod types;
pub mod error;
pub mod security;
pub mod models;
pub mod render;
pub mod postgres_utils;
pub mod sql;
pub mod numbers;
pub mod time;
pub mod query_builder;
pub mod placeholder_count;
pub mod update_operations;
pub mod sqlite;
pub mod mongo;
pub mod mongo_records;
pub mod mongo_procedures;
pub mod sql_inserts;
pub mod sql_rows;
pub mod sqlite_ops;
pub mod schema;
pub mod templates;
pub mod procedures;
pub mod cache_policy;
pub mod bridge_requests;
