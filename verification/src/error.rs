//! Errors of the archive operations.

use crate::json::ParseError;
use vstd::prelude::*;
use vstd::string::StringExecFns;

verus! {

/// What can go wrong while a mod archive is read or rewritten.
#[derive(Debug)]
pub enum MinecraftError {
    /// The bytes are not a valid ZIP container.
    ArchiveOpen,
    /// The entry at this index cannot be opened, so the archive cannot be
    /// enumerated.
    EntrySealed(usize),
    /// No entry of this name can be opened.
    EntryNotFound(String),
    /// The bytes of the entry of this name cannot be read.
    EntryUnreadable(String),
    /// The text of a metadata file is beyond recovery.
    Parse(ParseError),
    /// No usable metadata format is present.
    IdentityNotFound,
    /// The pattern engine refuses a pattern of the guidebook extractor.
    Pattern,
    /// The new archive could not be written; the text names the step.
    Rewrite(String),
}

impl MinecraftError {
    /// A line of text for the user.
    pub fn message(&self) -> (s: String)
        ensures
            s@ == self.text(),
    {
        match self {
            MinecraftError::ArchiveOpen => "ZIP error: not a valid archive".to_owned(),
            MinecraftError::EntrySealed(_) => "ZIP error: an entry cannot be opened".to_owned(),
            MinecraftError::EntryNotFound(path) => String::from_str(
                "ZIP error: entry not found: ",
            ).concat(path.as_str()),
            MinecraftError::EntryUnreadable(path) => String::from_str("IO error: cannot read ").concat(
                path.as_str(),
            ),
            MinecraftError::Parse(e) => String::from_str("JSON error: cannot parse ").concat(
                e.path.as_str(),
            ),
            MinecraftError::IdentityNotFound => "Mod error: Failed to extract mod information".to_owned(),
            MinecraftError::Pattern => "Patchouli error: pattern refused".to_owned(),
            MinecraftError::Rewrite(step) => String::from_str("Patchouli error: ").concat(
                step.as_str(),
            ),
        }
    }

    /// The text of `message`.
    pub open spec fn text(&self) -> Seq<char> {
        match self {
            MinecraftError::ArchiveOpen => "ZIP error: not a valid archive"@,
            MinecraftError::EntrySealed(_) => "ZIP error: an entry cannot be opened"@,
            MinecraftError::EntryNotFound(path) => "ZIP error: entry not found: "@ + path@,
            MinecraftError::EntryUnreadable(path) => "IO error: cannot read "@ + path@,
            MinecraftError::Parse(e) => "JSON error: cannot parse "@ + e.path@,
            MinecraftError::IdentityNotFound => "Mod error: Failed to extract mod information"@,
            MinecraftError::Pattern => "Patchouli error: pattern refused"@,
            MinecraftError::Rewrite(step) => "Patchouli error: "@ + step@,
        }
    }
}

} // verus!
