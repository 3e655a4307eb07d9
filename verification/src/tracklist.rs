//! The tracklist of a disc, and the assembler that reads it from the
//! directives of a CUE sheet.
//!
//! The header comes first: `CATALOG`, `PERFORMER`, `TITLE` and `REM`
//! directives in any order. The files follow. The first file that cannot be
//! assembled ends the tracklist, and so does a directive that starts no file:
//! what was assembled before is kept. `Tracklist::parse` stays silent about
//! it; `Tracklist::assemble` returns the error beside the tracklist.

use crate::command::{Command, CommandView};
use crate::error::Error;
use crate::file::{tracks_from, TrackFile, TrackFileView};
use crate::text::{parse_u8, same_text, spec_parse_u8, to_uppercase, uppercase};
use crate::track::{lemma_track_body_end_is_first_other, track_body_end};
use vstd::prelude::*;

verus! {

/// A disc as its CUE sheet describes it: what the sheet says of the disc as a
/// whole, and the files with their tracks.
#[derive(Clone, Debug, PartialEq, Eq)]
pub struct Tracklist {
    /// Media catalog number, by convention 13 decimal digits (UPC/EAN).
    pub catalog: Option<String>,
    /// Files described by the tracklist.
    pub files: Vec<TrackFile>,
    /// Performer of the disc.
    pub performer: Option<String>,
    /// Title of the disc.
    pub title: Option<String>,
    /// Genre of the disc.
    pub genre: Option<String>,
    /// Date of the disc, most often a year.
    pub date: Option<String>,
    /// Disc ID of the disc.
    pub discid: Option<String>,
    /// Comment on the disc.
    pub comment: Option<String>,
    /// Number of the disc within its set.
    pub discnumber: Option<u8>,
    /// Number of discs in the set.
    pub totaldiscs: Option<u8>,
}

/// A tracklist as a mathematical value.
pub struct TracklistView {
    pub catalog: Option<Seq<char>>,
    pub files: Seq<TrackFileView>,
    pub performer: Option<Seq<char>>,
    pub title: Option<Seq<char>>,
    pub genre: Option<Seq<char>>,
    pub date: Option<Seq<char>>,
    pub discid: Option<Seq<char>>,
    pub comment: Option<Seq<char>>,
    pub discnumber: Option<u8>,
    pub totaldiscs: Option<u8>,
}

impl View for Tracklist {
    type V = TracklistView;

    open spec fn view(&self) -> TracklistView {
        TracklistView {
            catalog: self.catalog.deep_view(),
            files: self.files.deep_view(),
            performer: self.performer.deep_view(),
            title: self.title.deep_view(),
            genre: self.genre.deep_view(),
            date: self.date.deep_view(),
            discid: self.discid.deep_view(),
            comment: self.comment.deep_view(),
            discnumber: self.discnumber,
            totaldiscs: self.totaldiscs,
        }
    }
}

impl DeepView for Tracklist {
    type V = TracklistView;

    open spec fn deep_view(&self) -> TracklistView {
        self@
    }
}

impl CommandView {
    /// Whether the directive belongs to the header of a sheet: `CATALOG`,
    /// `PERFORMER`, `TITLE` or `REM`.
    pub open spec fn in_header(self) -> bool {
        self is Catalog || self is Performer || self is Title || self is Rem
    }
}

/// Where the run of header directives that starts at `from` ends: the first
/// position from `from` on that holds another directive, or the sheet's end.
pub open spec fn header_end(sheet: Seq<CommandView>, from: int) -> int
    decreases sheet.len() - from,
{
    if 0 <= from < sheet.len() && sheet[from].in_header() {
        header_end(sheet, from + 1)
    } else {
        from
    }
}

/// Whether `key`, in upper case, is one of the `REM` keys that the tracklist
/// keeps.
pub open spec fn known_rem_key(key: Seq<char>) -> bool {
    ||| key == "GENRE"@
    ||| key == "DATE"@
    ||| key == "DISCID"@
    ||| key == "COMMENT"@
    ||| key == "DISCNUMBER"@
    ||| key == "TOTALDISCS"@
}

impl TracklistView {
    /// The tracklist of an empty sheet.
    pub open spec fn empty() -> TracklistView {
        TracklistView {
            catalog: None,
            files: Seq::empty(),
            performer: None,
            title: None,
            genre: None,
            date: None,
            discid: None,
            comment: None,
            discnumber: None,
            totaldiscs: None,
        }
    }

    /// The tracklist after a `REM` directive whose key is `key` in upper case.
    ///
    /// `GENRE`, `DATE`, `DISCID` and `COMMENT` set their field to `value`.
    /// `DISCNUMBER` and `TOTALDISCS` set theirs to the number that `value`
    /// denotes, and leave it as it is where `value` denotes no `u8`. Any other
    /// key changes nothing.
    pub open spec fn with_rem(self, key: Seq<char>, value: Seq<char>) -> TracklistView {
        if key == "GENRE"@ {
            TracklistView { genre: Some(value), ..self }
        } else if key == "DATE"@ {
            TracklistView { date: Some(value), ..self }
        } else if key == "DISCID"@ {
            TracklistView { discid: Some(value), ..self }
        } else if key == "COMMENT"@ {
            TracklistView { comment: Some(value), ..self }
        } else if key == "DISCNUMBER"@ {
            match spec_parse_u8(value) {
                Some(number) => TracklistView { discnumber: Some(number), ..self },
                None => self,
            }
        } else if key == "TOTALDISCS"@ {
            match spec_parse_u8(value) {
                Some(number) => TracklistView { totaldiscs: Some(number), ..self },
                None => self,
            }
        } else {
            self
        }
    }

    /// The tracklist after one directive of the header has been read.
    ///
    /// `CATALOG`, `PERFORMER` and `TITLE` set their field, so that the last one
    /// of a kind stays; `REM` goes by its key in upper case.
    pub open spec fn read(self, command: CommandView) -> TracklistView {
        match command {
            CommandView::Catalog(code) => TracklistView { catalog: Some(code), ..self },
            CommandView::Performer(name) => TracklistView { performer: Some(name), ..self },
            CommandView::Title(text) => TracklistView { title: Some(text), ..self },
            CommandView::Rem(key, value) => self.with_rem(uppercase(key), value),
            _ => self,
        }
    }

    /// The tracklist after the first `to` directives of the sheet have been
    /// read as its header.
    pub open spec fn read_up_to(sheet: Seq<CommandView>, to: int) -> TracklistView
        decreases to,
    {
        if to <= 0 {
            Self::empty()
        } else {
            Self::read_up_to(sheet, to - 1).read(sheet[to - 1])
        }
    }
}

/// The files that stand one after another from `pos` on, up to the first
/// position where no file can be assembled.
pub open spec fn files_from(sheet: Seq<CommandView>, pos: int) -> Seq<TrackFileView>
    decreases sheet.len() - pos,
{
    match TrackFile::spec_consume(sheet, pos) {
        Ok((file, next)) => {
            proof {
                lemma_tracks_from_bounds(sheet, pos + 1);
            }
            seq![file] + files_from(sheet, next)
        },
        Err(_) => Seq::empty(),
    }
}

/// Why the files from `pos` on end where they do: `None` where they reach the
/// sheet's end, else the error of the file assembler at the first position
/// where it fails.
pub open spec fn stop_reason(sheet: Seq<CommandView>, pos: int) -> Option<Error>
    decreases sheet.len() - pos,
{
    if pos >= sheet.len() {
        None
    } else {
        match TrackFile::spec_consume(sheet, pos) {
            Ok((_, next)) => {
                proof {
                    lemma_tracks_from_bounds(sheet, pos + 1);
                }
                stop_reason(sheet, next)
            },
            Err(e) => Some(e),
        }
    }
}

impl Tracklist {
    /// The tracklist of a sheet: its header read up to the first directive that
    /// is not part of it, and the files that follow from there.
    pub open spec fn spec_parse(sheet: Seq<CommandView>) -> TracklistView {
        let files_start: int = header_end(sheet, 0);
        TracklistView {
            files: files_from(sheet, files_start),
            ..TracklistView::read_up_to(sheet, files_start)
        }
    }

    /// Why the tracklist of a sheet ends where it does: `None` where every
    /// directive of the sheet went into it.
    pub open spec fn spec_diagnostic(sheet: Seq<CommandView>) -> Option<Error> {
        stop_reason(sheet, header_end(sheet, 0))
    }

    /// The tracklist of an empty sheet.
    pub fn new() -> (list: Tracklist)
        ensures
            list@ == TracklistView::empty(),
    {
        let list = Tracklist {
            catalog: None,
            files: Vec::new(),
            performer: None,
            title: None,
            genre: None,
            date: None,
            discid: None,
            comment: None,
            discnumber: None,
            totaldiscs: None,
        };
        assert(list.files.deep_view() =~= Seq::empty());
        list
    }

    /// Takes in a `REM` directive whose key, put in upper case, is `key`.
    pub fn set_rem(&mut self, key: &str, value: &str)
        ensures
            final(self)@ == old(self)@.with_rem(key@, value@),
    {
        if same_text(key, "GENRE") {
            self.genre = Some(value.to_owned());
        } else if same_text(key, "DATE") {
            self.date = Some(value.to_owned());
        } else if same_text(key, "DISCID") {
            self.discid = Some(value.to_owned());
        } else if same_text(key, "COMMENT") {
            self.comment = Some(value.to_owned());
        } else if same_text(key, "DISCNUMBER") {
            if let Some(number) = parse_u8(value) {
                self.discnumber = Some(number);
            }
        } else if same_text(key, "TOTALDISCS") {
            if let Some(number) = parse_u8(value) {
                self.totaldiscs = Some(number);
            }
        }
    }

    /// Takes in one directive of the header. Returns whether `command` is one:
    /// where it is not, nothing changes.
    pub fn read_header(&mut self, command: &Command) -> (read: bool)
        ensures
            read == command@.in_header(),
            final(self)@ == old(self)@.read(command@),
    {
        match command {
            Command::Catalog(code) => {
                self.catalog = Some(code.clone());
                true
            },
            Command::Performer(name) => {
                self.performer = Some(name.clone());
                true
            },
            Command::Title(text) => {
                self.title = Some(text.clone());
                true
            },
            Command::Rem(key, value) => {
                let upper = to_uppercase(key.as_str());
                self.set_rem(upper.as_str(), value.as_str());
                true
            },
            _ => false,
        }
    }

    /// Assembles the tracklist of a sheet, and says why it ends where it does.
    ///
    /// Reads the header, then one file after another. The first file that
    /// cannot be assembled ends the tracklist: the files before it are kept,
    /// it and everything after it are left out, and its error is the second
    /// part of the result. That part is `None` where the whole sheet was read.
    pub fn assemble(commands: &[Command]) -> (r: (Tracklist, Option<Error>))
        ensures
            r.0@ == Self::spec_parse(commands.deep_view()),
            r.1 == Self::spec_diagnostic(commands.deep_view()),
    {
        let ghost sheet = commands.deep_view();
        let n: usize = commands.len();
        let mut list = Tracklist::new();
        let mut pos: usize = 0;
        while pos < n
            invariant
                sheet == commands.deep_view(),
                n == commands.len(),
                pos <= n,
                list@ == TracklistView::read_up_to(sheet, pos as int),
                list@.files.len() == 0,
                forall|j: int| 0 <= j < pos ==> (#[trigger] sheet[j]).in_header(),
            ensures
                pos <= n,
                list@.files.len() == 0,
                pos == n || !sheet[pos as int].in_header(),
                list@ == TracklistView::read_up_to(sheet, pos as int),
                forall|j: int| 0 <= j < pos ==> (#[trigger] sheet[j]).in_header(),
            decreases n - pos,
        {
            if !list.read_header(&commands[pos]) {
                break ;
            }
            pos += 1;
        }
        proof {
            lemma_header_end_is_first_other(sheet, 0);
        }
        let ghost header = list@;
        let ghost files_start: int = pos as int;
        let mut diagnostic: Option<Error> = None;
        proof {
            assert(list.files.deep_view() + files_from(sheet, files_start) =~= files_from(
                sheet,
                files_start,
            ));
        }
        while pos < n
            invariant_except_break
                diagnostic is None,
            invariant
                sheet == commands.deep_view(),
                n == commands.len(),
                pos <= n,
                list@ == (TracklistView { files: list.files.deep_view(), ..header }),
                files_from(sheet, files_start) == list.files.deep_view() + files_from(
                    sheet,
                    pos as int,
                ),
                stop_reason(sheet, files_start) == stop_reason(sheet, pos as int),
            ensures
                list@ == (TracklistView { files: files_from(sheet, files_start), ..header }),
                diagnostic == stop_reason(sheet, files_start),
            decreases n - pos,
        {
            match TrackFile::consume(commands, pos) {
                Ok((file, next)) => {
                    proof {
                        let done = list.files.deep_view();
                        let rest = files_from(sheet, next as int);
                        assert(done + (seq![file@] + rest) =~= done.push(file@) + rest);
                    }
                    list.files.push(file);
                    pos = next;
                },
                Err(e) => {
                    diagnostic = Some(e);
                    break ;
                },
            }
        }
        (list, diagnostic)
    }

    /// Assembles the tracklist of a sheet.
    ///
    /// This always gives a tracklist. Where a file of the sheet cannot be
    /// assembled, the tracklist ends before that file and nothing reports it;
    /// `assemble` gives the same tracklist together with the reason.
    pub fn parse(commands: &[Command]) -> (list: Tracklist)
        ensures
            list@ == Self::spec_parse(commands.deep_view()),
    {
        Self::assemble(commands).0
    }
}

/// The tracks from `pos` on never end before `pos`, nor after the sheet's end.
pub proof fn lemma_tracks_from_bounds(sheet: Seq<CommandView>, pos: int)
    ensures
        tracks_from(sheet, pos) matches Ok((_, end)) ==> pos <= end && (pos <= sheet.len()
            ==> end <= sheet.len()),
    decreases sheet.len() - pos,
{
    if 0 <= pos < sheet.len() && sheet[pos] is Track {
        lemma_track_body_end_is_first_other(sheet, pos + 1);
        lemma_tracks_from_bounds(sheet, track_body_end(sheet, pos + 1));
    }
}

/// The six `REM` keys that the tracklist keeps are six different texts.
proof fn lemma_rem_keys_differ()
    ensures
        "GENRE"@.len() == 5,
        "DATE"@.len() == 4,
        "DISCID"@.len() == 6,
        "COMMENT"@.len() == 7,
        "DISCNUMBER"@.len() == 10,
        "TOTALDISCS"@.len() == 10,
        "DISCNUMBER"@ != "TOTALDISCS"@,
{
    reveal_strlit("GENRE");
    reveal_strlit("DATE");
    reveal_strlit("DISCID");
    reveal_strlit("COMMENT");
    reveal_strlit("DISCNUMBER");
    reveal_strlit("TOTALDISCS");
    assert("DISCNUMBER"@[0] == 'D' && "TOTALDISCS"@[0] == 'T');
}

/// The case of a `REM` key does not matter: two keys that agree in upper case
/// have the same effect on a tracklist.
pub proof fn lemma_rem_key_case_is_ignored(
    list: TracklistView,
    key: Seq<char>,
    other: Seq<char>,
    value: Seq<char>,
)
    requires
        uppercase(key) == uppercase(other),
    ensures
        list.read(CommandView::Rem(key, value)) == list.read(CommandView::Rem(other, value)),
{
}

/// A `REM` directive with a key that the tracklist does not keep changes
/// nothing, and is read as part of the header all the same.
pub proof fn lemma_unknown_rem_key_changes_nothing(
    list: TracklistView,
    key: Seq<char>,
    value: Seq<char>,
)
    requires
        !known_rem_key(uppercase(key)),
    ensures
        list.read(CommandView::Rem(key, value)) == list,
        CommandView::Rem(key, value).in_header(),
{
}

/// A `REM DISCNUMBER` or `REM TOTALDISCS` directive whose value denotes no `u8`
/// changes nothing.
pub proof fn lemma_malformed_number_changes_nothing(
    list: TracklistView,
    key: Seq<char>,
    value: Seq<char>,
)
    requires
        uppercase(key) == "DISCNUMBER"@ || uppercase(key) == "TOTALDISCS"@,
        spec_parse_u8(value) is None,
    ensures
        list.read(CommandView::Rem(key, value)) == list,
{
    lemma_rem_keys_differ();
}

/// Assembly is a function of the directives: two tracklists assembled from the
/// same sheet are equal, and so are the reasons why they end.
pub proof fn lemma_assembly_is_deterministic(
    sheet: Seq<CommandView>,
    first: (TracklistView, Option<Error>),
    second: (TracklistView, Option<Error>),
)
    requires
        first.0 == Tracklist::spec_parse(sheet),
        first.1 == Tracklist::spec_diagnostic(sheet),
        second.0 == Tracklist::spec_parse(sheet),
        second.1 == Tracklist::spec_diagnostic(sheet),
    ensures
        first == second,
{
}

/// The header ends at the first directive that is no header directive: every
/// directive before its end is one, and the directive at its end, if the sheet
/// goes on, is none.
pub proof fn lemma_header_end_is_first_other(sheet: Seq<CommandView>, from: int)
    requires
        0 <= from <= sheet.len(),
    ensures
        from <= header_end(sheet, from) <= sheet.len(),
        forall|j: int| from <= j < header_end(sheet, from) ==> (#[trigger] sheet[j]).in_header(),
        header_end(sheet, from) < sheet.len() ==> !sheet[header_end(sheet, from)].in_header(),
    decreases sheet.len() - from,
{
    if from < sheet.len() && sheet[from].in_header() {
        lemma_header_end_is_first_other(sheet, from + 1);
    }
}

impl CommandView {
    /// Whether the directive is a `REM` whose key is `key` in upper case.
    pub open spec fn is_rem(self, key: Seq<char>) -> bool {
        self matches CommandView::Rem(own, _) && uppercase(own) == key
    }

    /// Whether the directive is a `REM` whose key is `key` in upper case and
    /// whose value denotes a `u8`.
    pub open spec fn is_rem_number(self, key: Seq<char>) -> bool {
        self matches CommandView::Rem(own, value) && uppercase(own) == key && spec_parse_u8(
            value,
        ) is Some
    }
}

/// Of the `CATALOG`, `PERFORMER` and `TITLE` directives of a header, the last
/// of each kind stays: where the directive at `j` is the last of its kind
/// before `to`, the header read up to `to` has its text.
pub proof fn lemma_last_header_text_stays(sheet: Seq<CommandView>, to: int, j: int)
    requires
        0 <= j < to,
    ensures
        sheet[j] matches CommandView::Catalog(code) ==> (forall|k: int|
            j < k < to ==> !((#[trigger] sheet[k]) is Catalog)) ==> TracklistView::read_up_to(
            sheet,
            to,
        ).catalog == Some(code),
        sheet[j] matches CommandView::Performer(name) ==> (forall|k: int|
            j < k < to ==> !((#[trigger] sheet[k]) is Performer)) ==> TracklistView::read_up_to(
            sheet,
            to,
        ).performer == Some(name),
        sheet[j] matches CommandView::Title(text) ==> (forall|k: int|
            j < k < to ==> !((#[trigger] sheet[k]) is Title)) ==> TracklistView::read_up_to(
            sheet,
            to,
        ).title == Some(text),
    decreases to - j,
{
    if j + 1 < to {
        lemma_last_header_text_stays(sheet, to - 1, j);
    }
}

/// Of the `REM` directives of a header with one of the keys `GENRE`, `DATE`,
/// `DISCID` and `COMMENT`, the last of each key stays: where the directive at
/// `j` is the last with its key before `to`, the header read up to `to` has
/// its value.
pub proof fn lemma_last_rem_text_stays(sheet: Seq<CommandView>, to: int, j: int)
    requires
        0 <= j < to,
        sheet[j] is Rem,
    ensures
        sheet[j].is_rem("GENRE"@) ==> (forall|k: int|
            j < k < to ==> !(#[trigger] sheet[k]).is_rem("GENRE"@)) ==> TracklistView::read_up_to(
            sheet,
            to,
        ).genre == Some(sheet[j]->Rem_1),
        sheet[j].is_rem("DATE"@) ==> (forall|k: int|
            j < k < to ==> !(#[trigger] sheet[k]).is_rem("DATE"@)) ==> TracklistView::read_up_to(
            sheet,
            to,
        ).date == Some(sheet[j]->Rem_1),
        sheet[j].is_rem("DISCID"@) ==> (forall|k: int|
            j < k < to ==> !(#[trigger] sheet[k]).is_rem("DISCID"@)) ==> TracklistView::read_up_to(
            sheet,
            to,
        ).discid == Some(sheet[j]->Rem_1),
        sheet[j].is_rem("COMMENT"@) ==> (forall|k: int|
            j < k < to ==> !(#[trigger] sheet[k]).is_rem("COMMENT"@))
            ==> TracklistView::read_up_to(sheet, to).comment == Some(sheet[j]->Rem_1),
    decreases to - j,
{
    lemma_rem_keys_differ();
    if j + 1 < to {
        lemma_last_rem_text_stays(sheet, to - 1, j);
    }
}

/// Of the `REM DISCNUMBER` directives of a header whose value denotes a `u8`,
/// the last one stays, and likewise for `REM TOTALDISCS`: one whose value
/// denotes none has no part in it.
pub proof fn lemma_last_rem_number_stays(sheet: Seq<CommandView>, to: int, j: int)
    requires
        0 <= j < to,
        sheet[j] is Rem,
    ensures
        sheet[j].is_rem_number("DISCNUMBER"@) ==> (forall|k: int|
            j < k < to ==> !(#[trigger] sheet[k]).is_rem_number("DISCNUMBER"@))
            ==> TracklistView::read_up_to(sheet, to).discnumber == spec_parse_u8(
            sheet[j]->Rem_1,
        ),
        sheet[j].is_rem_number("TOTALDISCS"@) ==> (forall|k: int|
            j < k < to ==> !(#[trigger] sheet[k]).is_rem_number("TOTALDISCS"@))
            ==> TracklistView::read_up_to(sheet, to).totaldiscs == spec_parse_u8(
            sheet[j]->Rem_1,
        ),
    decreases to - j,
{
    lemma_rem_keys_differ();
    if j + 1 < to {
        lemma_last_rem_number_stays(sheet, to - 1, j);
    }
}

} // verus!
