//! One track of a file, and the assembler that reads it from the directives.
//!
//! A `PREGAP` states a length, not a position: the assembler places an index
//! with number 0 that length before the `INDEX` that follows. Where the pregap
//! is longer than the position of that index, the entry is placed at
//! `00:00:00`; this is no error.

use crate::command::{Command, CommandView, TrackType};
use crate::error::Error;
use crate::time::Time;
use vstd::prelude::*;

verus! {

/// An index of a track: its number and its position in the file. Number 0
/// marks the start of a pregap, number 1 the start of the track itself.
pub type IndexEntry = (u32, Time);

/// One track described by a tracklist.
#[derive(Clone, Debug, PartialEq, Eq)]
pub struct Track {
    /// Title of the track.
    pub title: Option<String>,
    /// Type of the track.
    pub track_type: TrackType,
    /// Duration of the track, where the indices of this track and of the next
    /// one in the file determine it.
    pub duration: Option<Time>,
    /// The indices of the track, in the order of the sheet.
    pub index: Vec<IndexEntry>,
    /// Track number as the sheet states it.
    pub number: u32,
    /// The performer of the track, if any was stated.
    pub performer: Option<String>,
    /// International Standard Recording Code of the track.
    pub isrc: Option<String>,
}

/// A track as a mathematical value.
pub struct TrackView {
    pub title: Option<Seq<char>>,
    pub track_type: TrackType,
    pub duration: Option<Time>,
    pub index: Seq<IndexEntry>,
    pub number: u32,
    pub performer: Option<Seq<char>>,
    pub isrc: Option<Seq<char>>,
}

impl View for Track {
    type V = TrackView;

    open spec fn view(&self) -> TrackView {
        TrackView {
            title: self.title.deep_view(),
            track_type: self.track_type,
            duration: self.duration,
            index: self.index@,
            number: self.number,
            performer: self.performer.deep_view(),
            isrc: self.isrc.deep_view(),
        }
    }
}

impl DeepView for Track {
    type V = TrackView;

    open spec fn deep_view(&self) -> TrackView {
        self@
    }
}

impl CommandView {
    /// Whether the directive belongs to the body of a track: `PERFORMER`,
    /// `TITLE`, `ISRC`, `PREGAP` or `INDEX`.
    pub open spec fn in_track_body(self) -> bool {
        self is Performer || self is Title || self is Isrc || self is Pregap || self is Index
    }
}

/// Whether the directive at `i` is a `PREGAP` that no `INDEX` follows at once.
pub open spec fn pregap_without_index(sheet: Seq<CommandView>, i: int) -> bool {
    &&& 0 <= i < sheet.len()
    &&& sheet[i] is Pregap
    &&& !(i + 1 < sheet.len() && sheet[i + 1] is Index)
}

/// Where the run of track-body directives that starts at `from` ends: the first
/// position from `from` on that holds another directive, or the sheet's end.
pub open spec fn track_body_end(sheet: Seq<CommandView>, from: int) -> int
    decreases sheet.len() - from,
{
    if 0 <= from < sheet.len() && sheet[from].in_track_body() {
        track_body_end(sheet, from + 1)
    } else {
        from
    }
}

impl TrackView {
    /// The track that a `TRACK` directive opens: its number and type, and
    /// nothing else yet.
    pub open spec fn opened(number: u32, track_type: TrackType) -> TrackView {
        TrackView {
            title: None,
            track_type,
            duration: None,
            index: Seq::empty(),
            number,
            performer: None,
            isrc: None,
        }
    }

    /// The track after the directive at `i` of its body has been read.
    ///
    /// `PERFORMER`, `TITLE` and `ISRC` set their field, so that the last one of
    /// a kind stays. `INDEX` appends its entry. `PREGAP` appends an entry with
    /// number 0, placed the pregap's length before the `INDEX` that follows it,
    /// and at `00:00:00` where the pregap is longer than that.
    pub open spec fn read(self, sheet: Seq<CommandView>, i: int) -> TrackView {
        match sheet[i] {
            CommandView::Performer(name) => TrackView { performer: Some(name), ..self },
            CommandView::Title(text) => TrackView { title: Some(text), ..self },
            CommandView::Isrc(code) => TrackView { isrc: Some(code), ..self },
            CommandView::Index(number, time) => TrackView {
                index: self.index.push((number, time)),
                ..self
            },
            CommandView::Pregap(length) => match sheet[i + 1] {
                CommandView::Index(_, first) => TrackView {
                    index: self.index.push((0u32, first.spec_saturating_subtract(length))),
                    ..self
                },
                _ => self,
            },
            _ => self,
        }
    }

    /// The track after the directives from `from` up to `to` have been read,
    /// one after the other.
    pub open spec fn read_up_to(self, sheet: Seq<CommandView>, from: int, to: int) -> TrackView
        decreases to - from,
    {
        if to <= from {
            self
        } else {
            self.read_up_to(sheet, from, to - 1).read(sheet, to - 1)
        }
    }
}

impl Track {
    /// What assembling a track at `start` gives: the track and the position of
    /// the first directive after it, or the error.
    ///
    /// - `ExpectedTrack` where no `TRACK` directive stands at `start`;
    /// - `MissingIndexAfterPregap` where the track's body holds a `PREGAP` that
    ///   no `INDEX` follows at once;
    /// - otherwise the track opened at `start` with its whole body read, and
    ///   the position where the body ends.
    pub open spec fn spec_consume(sheet: Seq<CommandView>, start: int) -> Result<
        (TrackView, int),
        Error,
    > {
        if 0 <= start < sheet.len() {
            match sheet[start] {
                CommandView::Track(number, track_type) => {
                    let end: int = track_body_end(sheet, start + 1);
                    let opened = TrackView::opened(number, track_type);
                    if exists|i: int| start < i < end && pregap_without_index(sheet, i) {
                        Err(Error::MissingIndexAfterPregap)
                    } else {
                        Ok((opened.read_up_to(sheet, start + 1, end), end))
                    }
                },
                _ => Err(Error::ExpectedTrack),
            }
        } else {
            Err(Error::ExpectedTrack)
        }
    }

    /// Assembles the track whose `TRACK` directive stands at `start`.
    ///
    /// Reads the `TRACK` directive and then, for as long as they follow one
    /// another, the `PERFORMER`, `TITLE`, `ISRC`, `PREGAP` and `INDEX`
    /// directives after it. Returns the track, with no duration, and the
    /// position of the first directive that is not part of it.
    pub fn consume(commands: &[Command], start: usize) -> (r: Result<(Track, usize), Error>)
        ensures
            match Self::spec_consume(commands.deep_view(), start as int) {
                Ok((track, next)) => r matches Ok((t, n)) && t@ == track && n == next,
                Err(e) => r matches Err(f) && f == e,
            },
            r matches Ok((t, n)) ==> t.duration is None && start < n <= commands.len(),
    {
        let ghost sheet = commands.deep_view();
        let n: usize = commands.len();
        if start >= n {
            return Err(Error::ExpectedTrack);
        }
        let (number, track_type) = match &commands[start] {
            Command::Track(number, track_type) => (*number, *track_type),
            _ => {
                return Err(Error::ExpectedTrack);
            },
        };
        let mut track = Track {
            title: None,
            track_type,
            duration: None,
            index: Vec::new(),
            number,
            performer: None,
            isrc: None,
        };
        let mut i: usize = start + 1;
        while i < n
            invariant
                sheet == commands.deep_view(),
                n == commands.len(),
                start < i <= n,
                sheet[start as int] == CommandView::Track(number, track_type),
                forall|j: int| start < j < i ==> (#[trigger] sheet[j]).in_track_body(),
                forall|j: int| start < j < i ==> !pregap_without_index(sheet, j),
                track@ == TrackView::opened(number, track_type).read_up_to(
                    sheet,
                    start + 1,
                    i as int,
                ),
                track.duration is None,
            ensures
                start < i <= n,
                i == n || !sheet[i as int].in_track_body(),
                forall|j: int| start < j < i ==> (#[trigger] sheet[j]).in_track_body(),
                forall|j: int| start < j < i ==> !pregap_without_index(sheet, j),
                track@ == TrackView::opened(number, track_type).read_up_to(
                    sheet,
                    start + 1,
                    i as int,
                ),
                track.duration is None,
            decreases n - i,
        {
            match &commands[i] {
                Command::Performer(name) => {
                    track.performer = Some(name.clone());
                },
                Command::Title(text) => {
                    track.title = Some(text.clone());
                },
                Command::Isrc(code) => {
                    track.isrc = Some(code.clone());
                },
                Command::Index(number, time) => {
                    track.index.push((*number, *time));
                },
                Command::Pregap(length) => {
                    let first = if i + 1 < n {
                        match &commands[i + 1] {
                            Command::Index(_, time) => Some(*time),
                            _ => None,
                        }
                    } else {
                        None
                    };
                    match first {
                        Some(time) => {
                            track.index.push((0, time.saturating_subtract(*length)));
                        },
                        None => {
                            proof {
                                lemma_track_body_end_is_first_other(sheet, start + 1);
                                assert(pregap_without_index(sheet, i as int));
                            }
                            return Err(Error::MissingIndexAfterPregap);
                        },
                    }
                },
                _ => {
                    break ;
                },
            }
            i += 1;
        }
        proof {
            lemma_track_body_end_is_first_other(sheet, start + 1);
        }
        Ok((track, i))
    }
}

/// A run ends at the first directive that is no track-body directive: every
/// directive before its end is one, and the directive at its end, if the sheet
/// goes on, is none.
pub proof fn lemma_track_body_end_is_first_other(sheet: Seq<CommandView>, from: int)
    requires
        0 <= from <= sheet.len(),
    ensures
        from <= track_body_end(sheet, from) <= sheet.len(),
        forall|j: int|
            from <= j < track_body_end(sheet, from) ==> (#[trigger] sheet[j]).in_track_body(),
        track_body_end(sheet, from) < sheet.len() ==> !sheet[track_body_end(
            sheet,
            from,
        )].in_track_body(),
    decreases sheet.len() - from,
{
    if from < sheet.len() && sheet[from].in_track_body() {
        lemma_track_body_end_is_first_other(sheet, from + 1);
    }
}

/// Of the `TITLE`, `PERFORMER` and `ISRC` directives in the body of a track,
/// the last of each kind stays: where the directive at `j` is the last of its
/// kind before `to`, the track read up to `to` has its text.
pub proof fn lemma_last_text_stays(
    track: TrackView,
    sheet: Seq<CommandView>,
    from: int,
    to: int,
    j: int,
)
    requires
        from <= j < to,
    ensures
        sheet[j] matches CommandView::Title(text) ==> (forall|k: int|
            j < k < to ==> !((#[trigger] sheet[k]) is Title)) ==> track.read_up_to(
            sheet,
            from,
            to,
        ).title == Some(text),
        sheet[j] matches CommandView::Performer(name) ==> (forall|k: int|
            j < k < to ==> !((#[trigger] sheet[k]) is Performer)) ==> track.read_up_to(
            sheet,
            from,
            to,
        ).performer == Some(name),
        sheet[j] matches CommandView::Isrc(code) ==> (forall|k: int|
            j < k < to ==> !((#[trigger] sheet[k]) is Isrc)) ==> track.read_up_to(
            sheet,
            from,
            to,
        ).isrc == Some(code),
    decreases to - j,
{
    if j + 1 < to {
        lemma_last_text_stays(track, sheet, from, to - 1, j);
    }
}

/// The body of a track changes neither its number, its type nor its duration,
/// and it leaves the title, the performer and the ISRC as they are where it
/// holds no directive of that kind. So a track that was just opened has none
/// of the three unless its body states it, and no duration.
pub proof fn lemma_body_keeps_what_it_does_not_state(
    track: TrackView,
    sheet: Seq<CommandView>,
    from: int,
    to: int,
)
    ensures
        track.read_up_to(sheet, from, to).number == track.number,
        track.read_up_to(sheet, from, to).track_type == track.track_type,
        track.read_up_to(sheet, from, to).duration == track.duration,
        (forall|k: int| from <= k < to ==> !((#[trigger] sheet[k]) is Title)) ==> track.read_up_to(
            sheet,
            from,
            to,
        ).title == track.title,
        (forall|k: int| from <= k < to ==> !((#[trigger] sheet[k]) is Performer))
            ==> track.read_up_to(sheet, from, to).performer == track.performer,
        (forall|k: int| from <= k < to ==> !((#[trigger] sheet[k]) is Isrc)) ==> track.read_up_to(
            sheet,
            from,
            to,
        ).isrc == track.isrc,
    decreases to - from,
{
    if to > from {
        lemma_body_keeps_what_it_does_not_state(track, sheet, from, to - 1);
    }
}

/// A `PREGAP` that is not longer than the position of the `INDEX` after it
/// gives an entry with number 0 that lies exactly the pregap's length, in
/// frames, before that position.
pub proof fn lemma_pregap_entry(track: TrackView, sheet: Seq<CommandView>, i: int)
    requires
        sheet[i] is Pregap,
        sheet[i + 1] is Index,
        sheet[i]->Pregap_0.is_normalized(),
        sheet[i + 1]->Index_1.is_normalized(),
        sheet[i]->Pregap_0.total_frames() <= sheet[i + 1]->Index_1.total_frames(),
    ensures
        track.read(sheet, i).index.len() == track.index.len() + 1,
        track.read(sheet, i).index.last().0 == 0,
        track.read(sheet, i).index.last().1.total_frames() + sheet[i]->Pregap_0.total_frames()
            == sheet[i + 1]->Index_1.total_frames(),
{
    let length = sheet[i]->Pregap_0;
    let first = sheet[i + 1]->Index_1;
    Time::lemma_from_frames(first.total_frames() - length.total_frames());
}

} // verus!
