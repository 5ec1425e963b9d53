//! Palmier Pro editor backend: the in-memory timeline model, the MCP tool
//! executor, the static model catalog and the JSON-RPC protocol shapes.

pub mod json;
pub mod reals;
pub mod int_float;
pub mod text;
pub mod clip_type;
pub mod color;
pub mod model;
pub mod edit;
pub mod ripple;
pub mod catalog;
pub mod export;
pub mod protocol;
pub mod tools;
pub mod mcp;
pub mod laws;
