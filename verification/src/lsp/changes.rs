//! What the server does with opened, changed and saved documents.

use vstd::prelude::*;
use crate::lsp::text::ends_with;

verus! {

/// `path` names a Pax document.
pub open spec fn is_pax_path_spec(path: Seq<char>) -> bool {
    path.len() >= 4 && path.subrange(path.len() - 4, path.len() as int) == ".pax"@
}

/// `path` names a Rust source file.
pub open spec fn is_rust_path_spec(path: Seq<char>) -> bool {
    path.len() >= 3 && path.subrange(path.len() - 3, path.len() as int) == ".rs"@
}

/// Whether `path` names a Pax document.
pub fn is_pax_path(path: &String) -> (r: bool)
    ensures
        r == is_pax_path_spec(path@),
{
    proof {
        reveal_strlit(".pax");
    }
    ends_with(path, ".pax")
}

/// Whether `path` names a Rust source file.
pub fn is_rust_path(path: &String) -> (r: bool)
    ensures
        r == is_rust_path_spec(path@),
{
    proof {
        reveal_strlit(".rs");
    }
    ends_with(path, ".rs")
}

/// Whether a document opened in the language `language_id` is one the
/// server handles.
pub fn is_pax_language(language_id: &String) -> (r: bool)
    ensures
        r == (language_id@ == "pax"@),
{
    language_id.eq(&String::from_str("pax"))
}

/// What to do with one pending change of a document: index the component
/// of a Pax document, and parse its new text where the change carries any.
#[derive(Clone, Copy, Debug, PartialEq, Eq, Structural)]
pub struct PendingChangeAction {
    pub index_component: bool,
    pub reparse: bool,
}

/// The action for a pending change of the document at `path` that carries
/// `change_count` content changes. Every pending change is dropped once
/// handled, whatever the action.
pub fn pending_change_action(path: &String, change_count: usize) -> (r: PendingChangeAction)
    ensures
        r.index_component == is_pax_path_spec(path@),
        r.reparse == (is_pax_path_spec(path@) && change_count > 0),
{
    let pax = is_pax_path(path);
    PendingChangeAction { index_component: pax, reparse: pax && change_count > 0 }
}

/// The time, in nanoseconds, that must pass between two saves of Rust files
/// for the second to trigger a new indexing.
pub const SAVE_DEBOUNCE_NANOS: u128 = 10_000_000_000;

/// What a save does.
#[derive(Clone, Copy, Debug, PartialEq, Eq, Structural)]
pub enum SaveAction {
    /// Not a Rust file: nothing.
    Ignore,
    /// A Rust file saved too soon after the last one: nothing.
    Debounce,
    /// A Rust file: record the time of this save, forget the Pax component
    /// that the file backs, if any, and index it again.
    Reindex,
}

/// What saving the file at `path` does, `since_last_save_nanos` after the
/// last save that reindexed.
pub fn save_action(path: &String, since_last_save_nanos: u128) -> (r: SaveAction)
    ensures
        r == if !is_rust_path_spec(path@) {
            SaveAction::Ignore
        } else if since_last_save_nanos < SAVE_DEBOUNCE_NANOS {
            SaveAction::Debounce
        } else {
            SaveAction::Reindex
        },
{
    if !is_rust_path(path) {
        SaveAction::Ignore
    } else if since_last_save_nanos < SAVE_DEBOUNCE_NANOS {
        SaveAction::Debounce
    } else {
        SaveAction::Reindex
    }
}

} // verus!
