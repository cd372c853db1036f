//! Lynx: the discovery layer that turns a query into symbol coordinates.
pub mod text;
pub mod classifier;
pub mod protocol;
pub mod ranking;
pub mod pipeline;
pub mod navigation;
pub mod syntax;
pub mod symbol_extraction;
pub mod parser;
pub mod schema;
pub mod documents;
pub mod requests;
pub mod display;
