//! The decisions of the Pax language server: what a hover or a jump to a
//! definition resolves to, which completions it offers, how parse errors
//! become diagnostics, and what it does with changed, opened and saved
//! documents.

pub mod changes;
pub mod completion;
pub mod diagnostics;
pub mod info;
pub mod laws;
pub mod model;
pub mod text;
