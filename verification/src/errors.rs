//! Shared error taxonomy for every operation of the crate.

use vstd::prelude::*;

verus! {

/// Failure kinds shared by the settings store, the profile repository, the
/// snapshot composer and live sync. No operation of this crate panics on
/// malformed input or malformed stored state: each failure surfaces as one of
/// these kinds.
#[derive(Debug)]
pub enum SettingsError {
    /// A stored document is present but does not have the expected shape, or
    /// a field of it violates its declared constraint.
    Corrupted,
    /// An I/O failure while reading a file; holds a description of the cause.
    FileRead(String),
    /// An I/O failure while writing or renaming a file; holds a description
    /// of the cause.
    FileWrite(String),
    /// A document's text is not well-formed as a settings document at the
    /// structural level.
    JsonParse,
    /// A semantically readable document fails a field-level constraint; holds
    /// the name of the offending field.
    Validation(String),
    /// A referenced profile id does not exist; holds the id.
    NotFound(String),
    /// The requested change conflicts with repository invariants, e.g.
    /// deleting the last remaining profile or a name collision on create;
    /// holds a description.
    Conflict(String),
}

impl SettingsError {
    /// A short, fixed label for the error kind, for caller-facing layers that
    /// build their own presentation from the taxonomy.
    pub fn kind_label(&self) -> (r: &'static str)
        ensures
            r@ == match self {
                SettingsError::Corrupted => "corrupted"@,
                SettingsError::FileRead(_) => "file-read"@,
                SettingsError::FileWrite(_) => "file-write"@,
                SettingsError::JsonParse => "json-parse"@,
                SettingsError::Validation(_) => "validation"@,
                SettingsError::NotFound(_) => "not-found"@,
                SettingsError::Conflict(_) => "conflict"@,
            },
    {
        match self {
            SettingsError::Corrupted => "corrupted",
            SettingsError::FileRead(_) => "file-read",
            SettingsError::FileWrite(_) => "file-write",
            SettingsError::JsonParse => "json-parse",
            SettingsError::Validation(_) => "validation",
            SettingsError::NotFound(_) => "not-found",
            SettingsError::Conflict(_) => "conflict",
        }
    }
}

} // verus!
