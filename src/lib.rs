//! Turns the tables and lists of a messaging service's API reference into a type
//! model, and synthesises source declarations for it.
pub mod text;
pub mod types;
pub mod utils;
pub mod converter;
pub mod parser;
pub mod registry;
pub mod render;
pub mod generator;
pub mod writer;
pub mod document;
