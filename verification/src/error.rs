//! The ways in which deriving the next boot's arguments fails.

use vstd::prelude::*;

verus! {

/// Why no argument list could be derived. Every failure ends the whole pass:
/// no partial list is ever returned.
#[derive(Clone, Copy, Debug, PartialEq, Eq, Structural)]
pub enum KargsError {
    /// A local fragment file could not be read.
    Io,
    /// The image's commit, its tree or one of its blobs could not be loaded.
    Repository,
    /// The content of a fragment is not UTF-8 text.
    Decode,
    /// The text of a fragment is not a TOML document of the expected shape:
    /// `kargs` is missing or is not a list of strings, or `arch` is present
    /// and is not a list of strings.
    FragmentParse,
}

} // verus!
