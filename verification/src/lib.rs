//! Assembles the directives of a CUE sheet into a tracklist.
//!
//! A CUE sheet describes how the image of a disc is divided into files, tracks
//! and indices. This library starts where a tokenizer ends: from the ordered
//! directives of a sheet ([`Command`]) it builds a [`Tracklist`] of
//! [`TrackFile`]s and [`Track`]s, places an index for each pregap, and infers
//! the duration of each track from the indices of the track after it.
//!
//! - [`time`]: timestamps in minutes, seconds and frames, and their arithmetic;
//! - [`command`]: the directives;
//! - [`track`], [`file`], [`tracklist`]: the three assemblers, each reading
//!   from a position in the directives and returning the position it reached;
//! - [`text`]: upper case and decimal numbers, as the header needs them;
//! - [`error`]: why a track or a file could not be assembled.
//!
//! Each assembler states what it returns as a function of the directives, for
//! every sequence of directives, and none of them panics.

pub mod command;
pub mod error;
pub mod file;
pub mod text;
pub mod time;
pub mod track;
pub mod tracklist;

pub use crate::command::{Command, FileFormat, TrackType};
pub use crate::error::Error;
pub use crate::file::TrackFile;
pub use crate::time::Time;
pub use crate::track::Track;
pub use crate::tracklist::Tracklist;
