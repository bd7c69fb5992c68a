//! Wildcard paths and the one file that each must match.
//!
//! The caller matches a wildcard path against the file system and reports
//! what it found; this module decides whether that is the one file asked
//! for.

use crate::error::{Error, ErrorView};
use vstd::prelude::*;

verus! {

/// One entry that a wildcard path gave.
#[derive(Debug)]
pub enum GlobEntry {
    /// A file that matches.
    Found { path: String },
    /// A directory that could not be read.
    Unreadable { path: String, reason: String },
}

/// What matching a wildcard path gave.
#[derive(Debug)]
pub enum GlobOutcome {
    /// The wildcard path is not a valid pattern.
    Malformed { reason: String },
    /// The entries in the order in which they were found. Of more than two
    /// only the first two need to be given.
    Entries(Vec<GlobEntry>),
}

/// The one file that a wildcard path matches, or the reason why there is
/// none: the pattern is malformed, nothing matches, the first entry could
/// not be read, or a second entry follows the first.
pub open spec fn single_match(wildcard: Seq<char>, outcome: GlobOutcome) -> Result<
    Seq<char>,
    ErrorView,
> {
    match outcome {
        GlobOutcome::Malformed { reason } => Err(
            ErrorView::MalformedGlob { glob: wildcard, reason: reason@ },
        ),
        GlobOutcome::Entries(entries) => {
            if entries@.len() == 0 {
                Err(ErrorView::GlobMatchesNone { glob: wildcard })
            } else {
                match entries@[0] {
                    GlobEntry::Unreadable { path, reason } => Err(
                        ErrorView::GlobError { glob: wildcard, path: path@, reason: reason@ },
                    ),
                    GlobEntry::Found { path } => {
                        if entries@.len() > 1 {
                            Err(ErrorView::GlobMatchesMultiple { glob: wildcard })
                        } else {
                            Ok(path@)
                        }
                    },
                }
            }
        },
    }
}

/// The one file that a wildcard path matches.
pub fn match_single_file_glob(wildcard: &str, outcome: GlobOutcome) -> (r: Result<String, Error>)
    ensures
        match r {
            Ok(path) => single_match(wildcard@, outcome) == Ok::<Seq<char>, ErrorView>(path@),
            Err(e) => single_match(wildcard@, outcome) == Err::<Seq<char>, ErrorView>(e@),
        },
{
    match outcome {
        GlobOutcome::Malformed { reason } => Err(
            Error::MalformedGlob { glob: wildcard.to_owned(), reason },
        ),
        GlobOutcome::Entries(entries) => {
            let mut entries = entries;
            let count = entries.len();
            if count == 0 {
                return Err(Error::GlobMatchesNone { glob: wildcard.to_owned() });
            }
            let first = entries.swap_remove(0);
            match first {
                GlobEntry::Unreadable { path, reason } => Err(
                    Error::GlobError { glob: wildcard.to_owned(), path, reason },
                ),
                GlobEntry::Found { path } => {
                    if count > 1 {
                        Err(Error::GlobMatchesMultiple { glob: wildcard.to_owned() })
                    } else {
                        Ok(path)
                    }
                },
            }
        },
    }
}

} // verus!
