//! The structural errors of assembly.

use vstd::prelude::*;

verus! {

/// Why a track or a file could not be assembled.
#[derive(Clone, Copy, Debug, PartialEq, Eq, Hash)]
pub enum Error {
    /// A track was asked for where no `TRACK` directive stands.
    ExpectedTrack,
    /// A file was asked for where no `FILE` directive stands.
    ExpectedFile,
    /// A `PREGAP` directive is the last directive of the sheet, or the directive
    /// right after it is not an `INDEX`.
    MissingIndexAfterPregap,
}

} // verus!
