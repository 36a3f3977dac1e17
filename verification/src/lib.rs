pub mod text;
pub mod sigv4;
pub mod s3_auth;
pub mod s3_route;
pub mod object_store;
pub mod kv_meta;
pub mod string_map;
pub mod image;
pub mod face;
pub mod vector_index;
pub mod vision;
pub mod rerank;
pub mod summarize;
pub mod lsql;
pub mod text_index;
pub mod sql_columns;
pub mod model_registry;
pub mod upload;
pub mod index_flow;
pub mod classify_flow;
