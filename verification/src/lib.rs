//! Core logic of the Pax tooling: property expressions and their transition
//! queues, the Carbon scene graph traversals and frame bookkeeping, and the
//! decisions that the Pax language server takes on hover, definition,
//! completion and document change requests.

pub mod api;
pub mod engine;
pub mod expressions;
pub mod lsp;
pub mod properties;
pub mod scene;
pub mod scene_laws;
