//! The reasons for which a command is turned down.

use vstd::prelude::*;

verus! {

/// Why a command was not carried out. A command that ends in a diagnostic
/// leaves the document as it was.
#[derive(Clone, Copy, Debug, PartialEq, Eq, Structural)]
pub enum Diagnostic {
    /// The command name is not one of the known commands.
    InvalidCommand,
    /// Fewer arguments than the command needs.
    InsufficientArguments,
    /// The category is not one of the fixed set.
    InvalidCategory,
    /// The status is not one of the fixed set.
    InvalidStatus,
    /// The season field is not one that can be edited.
    InvalidField,
    /// The category holds no item under that key.
    ItemNotFound,
    /// The item holds no season under that key.
    SeasonNotFound,
    /// The category already holds an item under that key.
    DuplicateItem,
    /// The item already holds a season under that key, or the key is one of
    /// the item's own attribute names.
    DuplicateSeason,
    /// The text that came back from the editor is not what was asked for.
    MalformedEditorOutput,
    /// A value offered for a season, or for one of its fields, does not have
    /// the shape of one.
    MalformedSeason,
    /// The stored text is not a document.
    MalformedDocument,
}

} // verus!
