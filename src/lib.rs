//! Tool-calling conversation engine: message history and turn decisions,
//! tool registries with collision-free naming, and response-shape handling.

pub mod text;
pub mod json;
pub mod schema;
pub mod tool;
pub mod multi_tool;
pub mod agent;
pub mod mcp;
pub mod websearch;
