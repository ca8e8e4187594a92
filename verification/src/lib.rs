//! A store of schema-less JSON documents kept in named collections, with a
//! small filter language, pagination and create / update / delete.

pub mod auth;
pub mod cmd_args;
pub mod codec;
pub mod consts;
pub mod crud;
pub mod data;
pub mod decimal;
pub mod error;
pub mod file;
pub mod filter_type;
pub mod json;
pub mod json_eq;
pub mod laws;
pub mod like;
pub mod number;
pub mod routes;
pub mod sort_type;
pub mod store;
pub mod toml_config;
