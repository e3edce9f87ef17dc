pub mod db_populate;
pub mod decode;
pub mod endpoints;
pub mod issue_tracker;
pub mod json;
pub mod llm_utils;
pub mod outside;
pub mod queries;
pub mod store;
pub mod text;
pub mod vector_search;
pub mod walker;
