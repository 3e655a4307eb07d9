//! The directives of a CUE sheet, one value for each line that a tokenizer read.

use crate::time::Time;
use vstd::prelude::*;

verus! {

/// The format tag of a `FILE` directive.
#[derive(Clone, Copy, Debug, PartialEq, Eq, Hash)]
pub enum FileFormat {
    /// Little-endian raw data.
    Binary,
    /// Big-endian raw data.
    Motorola,
    /// An AIFF audio file.
    Aiff,
    /// A WAVE audio file.
    Wave,
    /// An MP3 audio file.
    Mp3,
}

/// The type tag of a `TRACK` directive.
#[allow(non_camel_case_types)]
#[derive(Clone, Copy, Debug, PartialEq, Eq, Hash)]
pub enum TrackType {
    /// Audio, 2352 bytes to the sector.
    Audio,
    /// Karaoke CD+G, 2448 bytes to the sector.
    Cdg,
    /// CD-ROM mode 1 data, cooked.
    Mode1_2048,
    /// CD-ROM mode 1 data, raw.
    Mode1_2352,
    /// CD-ROM XA mode 2 data, cooked.
    Mode2_2336,
    /// CD-ROM XA mode 2 data, raw.
    Mode2_2352,
    /// CD-I mode 2 data, cooked.
    Cdi_2336,
    /// CD-I mode 2 data, raw.
    Cdi_2352,
}

/// One directive of a CUE sheet.
#[derive(Clone, Debug, PartialEq, Eq)]
pub enum Command {
    /// `CATALOG`: the media catalog number of the disc.
    Catalog(String),
    /// `PERFORMER`: of the disc, or of a track.
    Performer(String),
    /// `TITLE`: of the disc, or of a track.
    Title(String),
    /// `REM`: a key and a value.
    Rem(String, String),
    /// `FILE`: a file name and its format; the tracks that follow lie in it.
    File(String, FileFormat),
    /// `TRACK`: a track number and the track's type.
    Track(u32, TrackType),
    /// `PREGAP`: the length of the silence before the track's first index.
    Pregap(Time),
    /// `INDEX`: an index number and its position in the file.
    Index(u32, Time),
    /// `ISRC`: the recording code of a track.
    Isrc(String),
}

/// A directive as a mathematical value: texts are sequences of characters.
pub enum CommandView {
    Catalog(Seq<char>),
    Performer(Seq<char>),
    Title(Seq<char>),
    Rem(Seq<char>, Seq<char>),
    File(Seq<char>, FileFormat),
    Track(u32, TrackType),
    Pregap(Time),
    Index(u32, Time),
    Isrc(Seq<char>),
}

impl View for Command {
    type V = CommandView;

    open spec fn view(&self) -> CommandView {
        match self {
            Command::Catalog(code) => CommandView::Catalog(code@),
            Command::Performer(name) => CommandView::Performer(name@),
            Command::Title(text) => CommandView::Title(text@),
            Command::Rem(key, value) => CommandView::Rem(key@, value@),
            Command::File(name, format) => CommandView::File(name@, *format),
            Command::Track(number, track_type) => CommandView::Track(*number, *track_type),
            Command::Pregap(length) => CommandView::Pregap(*length),
            Command::Index(number, time) => CommandView::Index(*number, *time),
            Command::Isrc(code) => CommandView::Isrc(code@),
        }
    }
}

impl DeepView for Command {
    type V = CommandView;

    open spec fn deep_view(&self) -> CommandView {
        self@
    }
}

} // verus!
