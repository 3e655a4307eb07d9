//! One file of a tracklist, the assembler that reads it from the directives,
//! and the inference of track durations from the indices of adjacent tracks.
//!
//! The duration of a track is the distance from its last index to the first
//! index of the next track of the same file. Where that first index lies
//! before the last one, the duration is `00:00:00`; this is no error. Durations
//! are never inferred from one file to the next.

use crate::command::{Command, CommandView, FileFormat};
use crate::error::Error;
use crate::time::Time;
use crate::track::{lemma_track_body_end_is_first_other, Track, TrackView};
use vstd::prelude::*;

verus! {

/// One file described by a tracklist.
#[derive(Clone, Debug, PartialEq, Eq)]
pub struct TrackFile {
    /// The tracks that the file holds, in the order of the sheet.
    pub tracks: Vec<Track>,
    /// The file name.
    pub name: String,
    /// The format of the file.
    pub format: FileFormat,
}

/// A file as a mathematical value.
pub struct TrackFileView {
    pub tracks: Seq<TrackView>,
    pub name: Seq<char>,
    pub format: FileFormat,
}

impl View for TrackFile {
    type V = TrackFileView;

    open spec fn view(&self) -> TrackFileView {
        TrackFileView { tracks: self.tracks.deep_view(), name: self.name@, format: self.format }
    }
}

impl DeepView for TrackFile {
    type V = TrackFileView;

    open spec fn deep_view(&self) -> TrackFileView {
        self@
    }
}

impl TrackView {
    /// The position of the track's last index, where it has any: what the
    /// duration of the track is measured from.
    pub open spec fn anchor(self) -> Option<Time> {
        if self.index.len() > 0 {
            Some(self.index.last().1)
        } else {
            None
        }
    }
}

/// The duration of track `i` among the tracks of one file.
///
/// It is known where the track and the one after it both have indices: it is
/// then the distance from the track's last index to the next track's first
/// index, and `00:00:00` where the first index of the next track lies before
/// that last index. The last track of a file has no duration, and neither has
/// a track without indices, nor the track before one.
pub open spec fn inferred_duration(tracks: Seq<TrackView>, i: int) -> Option<Time> {
    if 0 <= i && i + 1 < tracks.len() && tracks[i].index.len() > 0 && tracks[i + 1].index.len()
        > 0 {
        Some(tracks[i + 1].index[0].1.spec_saturating_subtract(tracks[i].index.last().1))
    } else {
        None
    }
}

/// The tracks of one file with the duration of each filled in.
pub open spec fn with_durations(tracks: Seq<TrackView>) -> Seq<TrackView> {
    Seq::new(
        tracks.len(),
        |i: int| TrackView { duration: inferred_duration(tracks, i), ..tracks[i] },
    )
}

/// The tracks that stand one after another from `pos` on, as the track
/// assembler gives them, and the position of the first directive after them;
/// or the error of the first track that cannot be assembled.
pub open spec fn tracks_from(sheet: Seq<CommandView>, pos: int) -> Result<
    (Seq<TrackView>, int),
    Error,
>
    decreases sheet.len() - pos,
{
    if !(0 <= pos < sheet.len() && sheet[pos] is Track) {
        Ok((Seq::empty(), pos))
    } else {
        match Track::spec_consume(sheet, pos) {
            Err(e) => Err(e),
            Ok((track, next)) => {
                proof {
                    lemma_track_body_end_is_first_other(sheet, pos + 1);
                }
                match tracks_from(sheet, next) {
                    Err(e) => Err(e),
                    Ok((rest, end)) => Ok((seq![track] + rest, end)),
                }
            },
        }
    }
}

impl TrackFileView {
    /// The file after `track` has been appended while `anchor` was carried
    /// along: where both `anchor` and the first index of `track` are there, the
    /// track that was last so far gets the distance between them as its
    /// duration; then `track` is appended as it is.
    pub open spec fn with_track(self, anchor: Option<Time>, track: TrackView) -> TrackFileView {
        let before = if anchor is Some && track.index.len() > 0 && self.tracks.len() > 0 {
            self.tracks.update(
                self.tracks.len() - 1,
                TrackView {
                    duration: Some(track.index[0].1.spec_saturating_subtract(anchor->0)),
                    ..self.tracks.last()
                },
            )
        } else {
            self.tracks
        };
        TrackFileView { tracks: before.push(track), ..self }
    }
}

/// `done` followed by what `rest` holds, where `rest` holds tracks.
spec fn tracks_then(
    done: Seq<TrackView>,
    rest: Result<(Seq<TrackView>, int), Error>,
) -> Result<(Seq<TrackView>, int), Error> {
    match rest {
        Ok((more, end)) => Ok((done + more, end)),
        Err(e) => Err(e),
    }
}

/// The anchor after the tracks `done` of a file: that of the last of them.
spec fn anchor_after(done: Seq<TrackView>) -> Option<Time> {
    if done.len() > 0 {
        done.last().anchor()
    } else {
        None
    }
}

impl TrackFile {
    /// What assembling a file at `start` gives: the file and the position of
    /// the first directive after it, or the error.
    ///
    /// - `ExpectedFile` where no `FILE` directive stands at `start`;
    /// - the error of the first of the file's tracks that cannot be assembled;
    /// - otherwise the file with the tracks that follow the `FILE` directive
    ///   one after another, each with its duration, and the position of the
    ///   first directive that is not a `TRACK`.
    pub open spec fn spec_consume(sheet: Seq<CommandView>, start: int) -> Result<
        (TrackFileView, int),
        Error,
    > {
        if 0 <= start < sheet.len() {
            match sheet[start] {
                CommandView::File(name, format) => match tracks_from(sheet, start + 1) {
                    Err(e) => Err(e),
                    Ok((tracks, end)) => Ok(
                        (TrackFileView { tracks: with_durations(tracks), name, format }, end),
                    ),
                },
                _ => Err(Error::ExpectedFile),
            }
        } else {
            Err(Error::ExpectedFile)
        }
    }

    /// Assembles the file whose `FILE` directive stands at `start`.
    ///
    /// Reads the `FILE` directive and then one track after another for as long
    /// as a `TRACK` directive stands at the cursor, and infers the duration of
    /// each track from the indices of the next one. Returns the file and the
    /// position of the first directive that is not part of it.
    pub fn consume(commands: &[Command], start: usize) -> (r: Result<(TrackFile, usize), Error>)
        ensures
            match Self::spec_consume(commands.deep_view(), start as int) {
                Ok((file, next)) => r matches Ok((f, n)) && f@ == file && n == next,
                Err(e) => r matches Err(f) && f == e,
            },
            r matches Ok((f, n)) ==> start < n <= commands.len(),
    {
        let ghost sheet = commands.deep_view();
        let n: usize = commands.len();
        if start >= n {
            return Err(Error::ExpectedFile);
        }
        let (name, format) = match &commands[start] {
            Command::File(name, format) => (name.clone(), *format),
            _ => {
                return Err(Error::ExpectedFile);
            },
        };
        let ghost name_view = name@;
        let mut file = TrackFile { tracks: Vec::new(), name, format };
        let mut anchor: Option<Time> = None;
        let mut pos: usize = start + 1;
        let ghost mut done: Seq<TrackView> = Seq::empty();
        proof {
            assert(file.tracks.deep_view() =~= with_durations(done));
            if let Ok((more, _)) = tracks_from(sheet, pos as int) {
                assert(done + more =~= more);
            }
        }
        loop
            invariant
                sheet == commands.deep_view(),
                n == commands.len(),
                start < pos <= n,
                sheet[start as int] == CommandView::File(name_view, format),
                tracks_from(sheet, start + 1) == tracks_then(done, tracks_from(sheet, pos as int)),
                file.tracks.deep_view() == with_durations(done),
                file.name@ == name_view,
                file.format == format,
                anchor == anchor_after(done),
            ensures
                start < pos <= n,
                tracks_from(sheet, start + 1) == Ok::<(Seq<TrackView>, int), Error>(
                    (done, pos as int),
                ),
                file.tracks.deep_view() == with_durations(done),
                file.name@ == name_view,
                file.format == format,
            decreases n - pos,
        {
            match Track::consume(commands, pos) {
                Ok((track, next)) => {
                    proof {
                        let rest = tracks_from(sheet, next as int);
                        if let Ok((more, _)) = rest {
                            assert(done + (seq![track@] + more) =~= done.push(track@) + more);
                        }
                        lemma_with_track(done, file@, anchor, track@);
                        done = done.push(track@);
                    }
                    anchor = file.push_track(anchor, track);
                    pos = next;
                },
                Err(Error::ExpectedTrack) => {
                    proof {
                        assert(done + Seq::<TrackView>::empty() =~= done);
                    }
                    break ;
                },
                Err(e) => {
                    return Err(e);
                },
            }
        }
        Ok((file, pos))
    }

    /// One step of the inference of durations: appends `track` to the file.
    ///
    /// `anchor` is the position of the last index of the track appended before,
    /// or `None` where there is no such track or it has no index. The result is
    /// the anchor to pass with the next track of the same file.
    pub fn push_track(&mut self, anchor: Option<Time>, track: Track) -> (next: Option<Time>)
        ensures
            final(self)@ == old(self)@.with_track(anchor, track@),
            next == track@.anchor(),
    {
        let count: usize = track.index.len();
        let next = if count > 0 {
            Some(track.index[count - 1].1)
        } else {
            None
        };
        if count > 0 {
            if let Some(start) = anchor {
                let stop = track.index[0].1;
                let n: usize = self.tracks.len();
                if n > 0 {
                    self.tracks[n - 1].duration = Some(stop.saturating_subtract(start));
                }
            }
        }
        self.tracks.push(track);
        proof {
            let before = old(self).tracks.deep_view();
            let after = self.tracks.deep_view();
            let expected = old(self)@.with_track(anchor, track@).tracks;
            assert forall|i: int| 0 <= i < after.len() implies after[i] == expected[i] by {
                if i < before.len() {
                    assert(before[i] == old(self).tracks@[i]@);
                }
            }
            assert(after =~= expected);
        }
        next
    }
}

/// Appending a track with the anchor of the tracks so far keeps every duration
/// as `with_durations` states it.
proof fn lemma_with_track(
    done: Seq<TrackView>,
    file: TrackFileView,
    anchor: Option<Time>,
    track: TrackView,
)
    requires
        file.tracks == with_durations(done),
        anchor == anchor_after(done),
        track.duration is None,
    ensures
        file.with_track(anchor, track).tracks == with_durations(done.push(track)),
{
    assert(file.with_track(anchor, track).tracks =~= with_durations(done.push(track)));
}

/// The last track of an assembled file has no duration.
pub proof fn lemma_last_track_has_no_duration(
    sheet: Seq<CommandView>,
    start: int,
    file: TrackFileView,
    next: int,
)
    requires
        TrackFile::spec_consume(sheet, start) == Ok::<(TrackFileView, int), Error>((file, next)),
        file.tracks.len() > 0,
    ensures
        file.tracks.last().duration is None,
{
}

/// Where two tracks of an assembled file stand one after the other and both
/// have indices, the duration of the first is the distance from its last index
/// to the first index of the second; in frames, where that first index does not
/// lie before the last one, the difference of the two positions.
pub proof fn lemma_duration_between_indexed_tracks(
    sheet: Seq<CommandView>,
    start: int,
    file: TrackFileView,
    next: int,
    i: int,
)
    requires
        TrackFile::spec_consume(sheet, start) == Ok::<(TrackFileView, int), Error>((file, next)),
        0 <= i,
        i + 1 < file.tracks.len(),
        file.tracks[i].index.len() > 0,
        file.tracks[i + 1].index.len() > 0,
    ensures
        file.tracks[i].duration == Some(
            file.tracks[i + 1].index[0].1.spec_saturating_subtract(
                file.tracks[i].index.last().1,
            ),
        ),
        ({
            let from = file.tracks[i].index.last().1;
            let to = file.tracks[i + 1].index[0].1;
            from.is_normalized() && to.is_normalized() && from.total_frames()
                <= to.total_frames() ==> file.tracks[i].duration->0.total_frames()
                == to.total_frames() - from.total_frames()
        }),
{
    let from = file.tracks[i].index.last().1;
    let to = file.tracks[i + 1].index[0].1;
    if from.is_normalized() && to.is_normalized() && from.total_frames() <= to.total_frames() {
        Time::lemma_from_frames(to.total_frames() - from.total_frames());
    }
}

/// A track without indices breaks the chain: in an assembled file it has no
/// duration, and neither has the track before it.
pub proof fn lemma_track_without_index_breaks_chain(
    sheet: Seq<CommandView>,
    start: int,
    file: TrackFileView,
    next: int,
    i: int,
)
    requires
        TrackFile::spec_consume(sheet, start) == Ok::<(TrackFileView, int), Error>((file, next)),
        0 <= i < file.tracks.len(),
        file.tracks[i].index.len() == 0,
    ensures
        file.tracks[i].duration is None,
        i > 0 ==> file.tracks[i - 1].duration is None,
{
}

} // verus!
