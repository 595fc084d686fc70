pub mod api_types;
pub mod config;
pub mod decl;
pub mod laws;
pub mod matcher;
pub mod parser;
pub mod resolve;
pub mod strings;
pub mod tables;
