//! An in-memory catalogue of tools (title, link, description, tags), keyed by
//! a unique identifier, with listing by tag, creation and removal.

pub mod http;
pub mod ids;
pub mod laws;
pub mod registry;
pub mod tool;

pub use registry::{RemoveError, ToolRegistry};
pub use tool::{CreateTool, Tool, ToolView};
