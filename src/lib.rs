pub mod config;
pub mod expr;
pub mod filter;
pub mod grammar;
pub mod laws;
pub mod manifest;
pub mod parser;
pub mod render;
pub mod selection;
