pub mod args;
pub mod cache;
pub mod capture;
pub mod channel;
pub mod config;
pub mod extract;
pub mod grammar;
pub mod keyed;
pub mod kind_map;
pub mod language;
pub mod language_map;
pub mod lazy;
pub mod loader;
pub mod parser;
pub mod queries;
pub mod query;
pub mod strings;
pub mod symbol;
pub mod symbol_stream;
pub mod template;
pub mod text;
pub mod utils;
pub mod walker;
pub mod worker;
pub mod writer;
