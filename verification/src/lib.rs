//! `canmore`: temporary visual "medium" surfaces for a coding assistant.
//!
//! A surface (a decision board, a diagram, a comparison grid, ...) is created
//! from a title, a purpose, a medium and cards; it collects structured
//! feedback events; it stays ephemeral until it is promoted to project
//! material. Tools answer with compact summaries unless the full surface is
//! asked for, and every surface has a static HTML view.
//!
//! - [`surface`]: surfaces and their lifecycle (create, update, record an
//!   event, promote, summarise).
//! - [`listing`]: which stored files are surfaces, and the most recent first.
//! - [`render`]: the HTML page of a surface and the index page.
//! - [`asset`]: image assets: signatures, SHA-256, asset records.
//! - [`store`]: where a workspace keeps surfaces and assets.
//! - [`http`] and [`rpc`]: the decisions of the live HTTP server and of the
//!   JSON-RPC (MCP) server: routes, tools, recipe.
//! - [`json`] and [`mcp`]: JSON values and the answer to each JSON-RPC line,
//!   from its text to the reply, or to the tool call and its reply.
//! - [`ids`], [`fields`], [`escape`], [`text`]: identifiers and timestamps,
//!   required fields, escaping, and character-level helpers.

pub mod text;
pub mod escape;
pub mod ids;
pub mod fields;
pub mod surface;
pub mod listing;
pub mod asset;
pub mod store;
pub mod render;
pub mod http;
pub mod rpc;
pub mod json;
pub mod mcp;
