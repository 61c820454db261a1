//! The errors of the crate.

use vstd::prelude::*;

verus! {

/// What can go wrong. Each variant but the last one carries a message
/// for the user.
#[derive(Debug, Clone, PartialEq, Eq)]
pub enum GvcError {
    /// The project, a coordinate, a pattern or the address of a
    /// repository is not valid.
    ProjectValidation(String),
    /// The catalog document, or the metadata of a repository, cannot be
    /// read or has not the expected form.
    TomlParsing(String),
    /// A path cannot be handed to a source-control command.
    GitOperation(String),
    /// A repository cannot be reached, or its answer is refused.
    Io(String),
    /// An entry of the catalog has a shape that cannot be edited safely.
    UnsupportedShape(String),
    /// The user asked to stop; nothing may be written.
    UserCancelled,
}

} // verus!
