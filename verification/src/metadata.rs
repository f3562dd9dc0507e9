//! Domain metadata of one audiobook: title, artist, total duration and an
//! ordered chapter list, derived from a probe report. Conversion parses
//! every time field exactly and validates the chapter ordering invariant.
use vstd::prelude::*;

use crate::duration::Duration;
use crate::errors::Error;
use crate::json::{json_of, text_field, Json};
use crate::report;
use crate::report::{
    chapters_seq, fmt_of, opt_text, rchapter_matches, report_matches, report_shape_ok, tag_of,
};
use crate::timestamp::{
    is_valid_timestamp, lemma_timestamp_round_trip, parse_timestamp, reproduces_seconds,
    timestamp_millis,
};

verus! {

/// A titled sub-range of the book's timeline.
#[derive(Debug, PartialEq, Eq)]
pub struct Chapter {
    pub title: String,
    pub start: Duration,
    pub end: Duration,
}

impl Chapter {
    /// A chapter must not end before it starts.
    pub open spec fn wf(self) -> bool {
        self.start.millis <= self.end.millis
    }

    /// Does this chapter contain the position, both boundaries included?
    pub open spec fn spec_contains(self, position: Duration) -> bool {
        self.start.millis <= position.millis <= self.end.millis
    }

    pub fn contains(&self, position: Duration) -> (r: bool)
        ensures
            r == self.spec_contains(position),
    {
        self.start.millis <= position.millis && position.millis <= self.end.millis
    }
}

impl Clone for Chapter {
    fn clone(&self) -> (r: Chapter)
        ensures
            r == *self,
    {
        Chapter { title: self.title.clone(), start: self.start, end: self.end }
    }
}

/// The metadata of the currently open book. Replaced wholesale on each
/// successful open; never edited in place.
#[derive(Debug, PartialEq, Eq)]
pub struct Metadata {
    pub path: String,
    pub title: String,
    pub artist: String,
    pub duration: Duration,
    pub chapters: Vec<Chapter>,
}

/// The two metadata values describe the same book: every field agrees.
/// (Container types are compared by contents.)
pub open spec fn same_book(a: Metadata, b: Metadata) -> bool {
    &&& a.path@ == b.path@
    &&& a.title@ == b.title@
    &&& a.artist@ == b.artist@
    &&& a.duration == b.duration
    &&& a.chapters@ == b.chapters@
}

/// The title (or artist) a tag block yields: the tag's text, or empty when
/// the tag is absent.
pub open spec fn tag_or_empty(t: Option<String>) -> Seq<char> {
    match t {
        Some(s) => s@,
        None => Seq::empty(),
    }
}

/// The time field parses and its millisecond count is representable.
pub open spec fn time_ok(s: Seq<char>) -> bool {
    is_valid_timestamp(s) && timestamp_millis(s) <= u64::MAX
}

pub open spec fn chapter_times_ok(c: report::Chapter) -> bool {
    time_ok(c.start_time@) && time_ok(c.end_time@)
}

/// Every time field of the report is a representable timestamp.
pub open spec fn report_times_ok(r: report::Metadata) -> bool {
    &&& forall|i: int|
        0 <= i < r.chapters@.len() ==> chapter_times_ok(#[trigger] r.chapters@[i])
    &&& time_ok(r.format.duration@)
}

/// The reported chapters, once parsed, are well-formed, sorted by start
/// and non-overlapping.
pub open spec fn report_sorted(r: report::Metadata) -> bool {
    &&& forall|i: int|
        0 <= i < r.chapters@.len() ==> timestamp_millis(
            (#[trigger] r.chapters@[i]).start_time@,
        ) <= timestamp_millis(r.chapters@[i].end_time@)
    &&& forall|i: int|
        0 <= i < r.chapters@.len() - 1 ==> timestamp_millis(
            (#[trigger] r.chapters@[i]).end_time@,
        ) <= timestamp_millis(r.chapters@[i + 1].start_time@)
}

/// The domain chapter is exactly what the reported chapter says: the title
/// tag or empty, and both boundaries parsed.
pub open spec fn chapter_matches(c: Chapter, rc: report::Chapter) -> bool {
    &&& c.title@ == tag_or_empty(rc.tags.title)
    &&& c.start.millis == timestamp_millis(rc.start_time@)
    &&& c.end.millis == timestamp_millis(rc.end_time@)
}

/// The text an optional tag yields, empty when it is absent.
pub open spec fn text_or_empty(o: Option<Seq<char>>) -> Seq<char> {
    match o {
        Some(s) => s,
        None => Seq::empty(),
    }
}

/// The start boundary of a reported chapter document, in milliseconds.
pub open spec fn start_ms(cj: Json) -> nat {
    timestamp_millis(text_or_empty(text_field(cj, "start_time"@)))
}

/// The end boundary of a reported chapter document, in milliseconds.
pub open spec fn end_ms(cj: Json) -> nat {
    timestamp_millis(text_or_empty(text_field(cj, "end_time"@)))
}

pub open spec fn json_chapter_times_ok(cj: Json) -> bool {
    &&& time_ok(text_or_empty(text_field(cj, "start_time"@)))
    &&& time_ok(text_or_empty(text_field(cj, "end_time"@)))
}

/// Every time field of the report document is a representable timestamp.
pub open spec fn json_times_ok(j: Json) -> bool {
    &&& forall|i: int|
        0 <= i < chapters_seq(j).len() ==> json_chapter_times_ok(#[trigger] chapters_seq(j)[i])
    &&& time_ok(text_or_empty(text_field(fmt_of(j), "duration"@)))
}

/// The chapters of the report document, once parsed, are well-formed,
/// sorted by start and non-overlapping.
pub open spec fn json_sorted(j: Json) -> bool {
    &&& forall|i: int|
        0 <= i < chapters_seq(j).len() ==> start_ms(#[trigger] chapters_seq(j)[i]) <= end_ms(
            chapters_seq(j)[i],
        )
    &&& forall|i: int|
        0 <= i < chapters_seq(j).len() - 1 ==> end_ms(#[trigger] chapters_seq(j)[i]) <= start_ms(
            chapters_seq(j)[i + 1],
        )
}

/// Extraction succeeds on exactly these bytes: they parse as a JSON
/// document of the report's shape whose time fields are representable
/// timestamps and whose chapters are ordered.
pub open spec fn extraction_ok(bytes: Seq<u8>) -> bool {
    json_of(bytes) matches Some(j) && report_shape_ok(j) && json_times_ok(j) && json_sorted(j)
}

/// The domain chapter carries exactly what the document's chapter says:
/// the title tag or empty, and both boundaries parsed to milliseconds.
pub open spec fn json_chapter_matches(c: Chapter, cj: Json) -> bool {
    &&& c.title@ == text_or_empty(tag_of(cj, "title"@))
    &&& c.start.millis == start_ms(cj)
    &&& c.end.millis == end_ms(cj)
}

/// The extracted metadata carries exactly what the report document says.
pub open spec fn metadata_matches_json(m: Metadata, j: Json) -> bool {
    &&& m.title@ == text_or_empty(tag_of(fmt_of(j), "title"@))
    &&& m.artist@ == text_or_empty(tag_of(fmt_of(j), "artist"@))
    &&& m.duration.millis == timestamp_millis(text_or_empty(text_field(fmt_of(j), "duration"@)))
    &&& m.chapters@.len() == chapters_seq(j).len()
    &&& forall|i: int|
        0 <= i < m.chapters@.len() ==> json_chapter_matches(
            #[trigger] m.chapters@[i],
            chapters_seq(j)[i],
        )
}

/// What invoking the external probe produced, as the caller saw it.
pub enum ProbeOutcome {
    /// The probe could not be started at all.
    Unavailable,
    /// The probe ran but exited reporting an error.
    Failed,
    /// The probe ran to completion; the bytes it printed.
    Output(Vec<u8>),
}

impl Metadata {
    /// Chapters are well-formed, sorted by start, and non-overlapping.
    pub open spec fn wf(self) -> bool {
        &&& forall|i: int| 0 <= i < self.chapters@.len() ==> (#[trigger] self.chapters@[i]).wf()
        &&& forall|i: int|
            0 <= i < self.chapters@.len() - 1 ==> (#[trigger] self.chapters@[i]).end.millis
                <= self.chapters@[i + 1].start.millis
    }

    /// The metadata of no book at all: everything empty.
    pub fn empty() -> (r: Metadata)
        ensures
            r.wf(),
            r.path@.len() == 0,
            r.title@.len() == 0,
            r.artist@.len() == 0,
            r.duration.millis == 0,
            r.chapters@.len() == 0,
    {
        Metadata {
            path: String::new(),
            title: String::new(),
            artist: String::new(),
            duration: Duration::zero(),
            chapters: Vec::new(),
        }
    }

    /// Converts a read report into domain metadata. Succeeds exactly when
    /// every time field is a representable timestamp and the parsed
    /// chapters are sorted and non-overlapping; an unparsable time field
    /// is `InvalidTimestamp`, a misordered chapter list `MalformedReport`.
    /// Absent title and artist tags become empty strings.
    #[verifier::rlimit(60)]
    pub fn from_report(path: &str, rep: &report::Metadata) -> (r: Result<Metadata, Error>)
        ensures
            r is Ok <==> report_times_ok(*rep) && report_sorted(*rep),
            r == Err::<Metadata, Error>(Error::InvalidTimestamp) <==> !report_times_ok(*rep),
            r == Err::<Metadata, Error>(Error::MalformedReport) <==> report_times_ok(*rep)
                && !report_sorted(*rep),
            r matches Ok(m) ==> {
                &&& m.wf()
                &&& m.path@ == path@
                &&& m.title@ == tag_or_empty(rep.format.tags.title)
                &&& m.artist@ == tag_or_empty(rep.format.tags.artist)
                &&& m.duration.millis == timestamp_millis(rep.format.duration@)
                &&& m.chapters@.len() == rep.chapters@.len()
                &&& forall|i: int|
                    0 <= i < rep.chapters@.len() ==> chapter_matches(
                        #[trigger] m.chapters@[i],
                        rep.chapters@[i],
                    )
            },
    {
        let n = rep.chapters.len();
        let mut chapters: Vec<Chapter> = Vec::new();
        let mut i: usize = 0;
        // First pass: every time field must parse.
        while i < n
            invariant
                i <= n,
                n == rep.chapters@.len(),
                chapters@.len() == i,
                forall|j: int| 0 <= j < i ==> chapter_times_ok(#[trigger] rep.chapters@[j]),
                forall|j: int|
                    0 <= j < i ==> chapter_matches(#[trigger] chapters@[j], rep.chapters@[j]),
            decreases n - i,
        {
            let rc = &rep.chapters[i];
            let start = match parse_timestamp(rc.start_time.as_str()) {
                Ok(d) => d,
                Err(e) => {
                    proof {
                        assert(!chapter_times_ok(rep.chapters@[i as int]));
                    }
                    return Err(e);
                },
            };
            let end = match parse_timestamp(rc.end_time.as_str()) {
                Ok(d) => d,
                Err(e) => {
                    proof {
                        assert(!chapter_times_ok(rep.chapters@[i as int]));
                    }
                    return Err(e);
                },
            };
            let title = match &rc.tags.title {
                Some(t) => t.clone(),
                None => String::new(),
            };
            chapters.push(Chapter { title, start, end });
            i = i + 1;
        }
        let duration = match parse_timestamp(rep.format.duration.as_str()) {
            Ok(d) => d,
            Err(e) => {
                return Err(e);
            },
        };
        // Second pass: the parsed boundaries must be ordered.
        let mut j: usize = 0;
        while j < n
            invariant
                j <= n,
                n == rep.chapters@.len(),
                chapters@.len() == n,
                report_times_ok(*rep),
                forall|j2: int|
                    0 <= j2 < n ==> chapter_matches(#[trigger] chapters@[j2], rep.chapters@[j2]),
                forall|j2: int|
                    0 <= j2 < j ==> (#[trigger] chapters@[j2]).start.millis
                        <= chapters@[j2].end.millis,
                forall|j2: int|
                    0 <= j2 < j && j2 < n - 1 ==> (#[trigger] chapters@[j2]).end.millis
                        <= chapters@[j2 + 1].start.millis,
            decreases n - j,
        {
            let c = &chapters[j];
            if c.start.as_millis() > c.end.as_millis() {
                proof {
                    assert(timestamp_millis(rep.chapters@[j as int].start_time@)
                        > timestamp_millis(rep.chapters@[j as int].end_time@));
                }
                return Err(Error::MalformedReport);
            }
            if j + 1 < n {
                let next_start = chapters[j + 1].start.as_millis();
                if chapters[j].end.as_millis() > next_start {
                    proof {
                        assert(timestamp_millis(rep.chapters@[j as int].end_time@)
                            > timestamp_millis(rep.chapters@[j + 1].start_time@));
                    }
                    return Err(Error::MalformedReport);
                }
            }
            j = j + 1;
        }
        proof {
            assert forall|i2: int| 0 <= i2 < rep.chapters@.len() implies timestamp_millis(
                (#[trigger] rep.chapters@[i2]).start_time@,
            ) <= timestamp_millis(rep.chapters@[i2].end_time@) by {
                assert(chapter_matches(chapters@[i2], rep.chapters@[i2]));
            }
            assert forall|i2: int| 0 <= i2 < rep.chapters@.len() - 1 implies timestamp_millis(
                (#[trigger] rep.chapters@[i2]).end_time@,
            ) <= timestamp_millis(rep.chapters@[i2 + 1].start_time@) by {
                assert(chapter_matches(chapters@[i2], rep.chapters@[i2]));
                assert(chapter_matches(chapters@[i2 + 1], rep.chapters@[i2 + 1]));
            }
            assert(report_sorted(*rep));
        }
        let title = match &rep.format.tags.title {
            Some(t) => t.clone(),
            None => String::new(),
        };
        let artist = match &rep.format.tags.artist {
            Some(t) => t.clone(),
            None => String::new(),
        };
        Ok(Metadata { path: path.to_owned(), title, artist, duration, chapters })
    }

    /// The whole extraction pipeline after the probe has run: a failed
    /// invocation or a failing probe is reported as such; otherwise the
    /// probe's bytes are read as a JSON report and converted. Succeeds
    /// exactly when the bytes carry a well-formed report (`extraction_ok`),
    /// and then the metadata is, field by field, what the report says;
    /// each error names exactly what was wrong with the bytes.
    pub fn extract(path: &str, outcome: ProbeOutcome) -> (r: Result<Metadata, Error>)
        ensures
            outcome is Unavailable ==> r == Err::<Metadata, Error>(Error::ProbeUnavailable),
            outcome is Failed ==> r == Err::<Metadata, Error>(Error::ProbeFailed),
            outcome matches ProbeOutcome::Output(bytes) ==> ({
                let doc = json_of(bytes@);
                &&& (r is Ok <==> extraction_ok(bytes@))
                &&& (r == Err::<Metadata, Error>(Error::InvalidTimestamp) <==> (doc matches Some(j)
                    && report_shape_ok(j) && !json_times_ok(j)))
                &&& (r == Err::<Metadata, Error>(Error::MalformedReport) <==> (doc is None || (
                doc matches Some(j) && (!report_shape_ok(j) || (json_times_ok(j) && !json_sorted(
                    j,
                ))))))
                &&& (r matches Ok(m) ==> m.wf() && m.path@ == path@ && (doc matches Some(j)
                    && metadata_matches_json(m, j)))
            }),
    {
        match outcome {
            ProbeOutcome::Unavailable => Err(Error::ProbeUnavailable),
            ProbeOutcome::Failed => Err(Error::ProbeFailed),
            ProbeOutcome::Output(bytes) => {
                match crate::json::parse_json(bytes.as_slice()) {
                    None => Err(Error::MalformedReport),
                    Some(v) => {
                        match report::Metadata::from_value(&v) {
                            None => Err(Error::MalformedReport),
                            Some(rep) => {
                                let r = Metadata::from_report(path, &rep);
                                proof {
                                    lemma_times_bridge(rep, crate::json::model_of(v));
                                }
                                if let Ok(m) = &r {
                                    proof {
                                        lemma_metadata_bridge(*m, rep, crate::json::model_of(v));
                                    }
                                }
                                r
                            },
                        }
                    },
                }
            },
        }
    }
}

/// A lifted report and its document agree on every time predicate: the
/// lifted strings are the document's strings, so parsing them gives the
/// same milliseconds.
proof fn lemma_times_bridge(rep: report::Metadata, j: Json)
    requires
        report_matches(rep, j),
    ensures
        report_times_ok(rep) <==> json_times_ok(j),
        report_sorted(rep) <==> json_sorted(j),
{
    let cs = chapters_seq(j);
    assert forall|i: int| 0 <= i < rep.chapters@.len() implies {
        &&& (chapter_times_ok(#[trigger] rep.chapters@[i]) <==> json_chapter_times_ok(cs[i]))
        &&& timestamp_millis(rep.chapters@[i].start_time@) == start_ms(cs[i])
        &&& timestamp_millis(rep.chapters@[i].end_time@) == end_ms(cs[i])
    } by {
        assert(rchapter_matches(rep.chapters@[i], cs[i]));
    }
    assert(rep.format.duration@ == text_or_empty(text_field(fmt_of(j), "duration"@)));
    if report_times_ok(rep) {
        assert forall|i: int| 0 <= i < cs.len() implies json_chapter_times_ok(
            #[trigger] cs[i],
        ) by {
            assert(chapter_times_ok(rep.chapters@[i]));
        }
    }
    if json_times_ok(j) {
        assert forall|i: int| 0 <= i < rep.chapters@.len() implies chapter_times_ok(
            #[trigger] rep.chapters@[i],
        ) by {
            assert(json_chapter_times_ok(cs[i]));
        }
    }
    if report_sorted(rep) {
        assert forall|i: int| 0 <= i < cs.len() implies start_ms(#[trigger] cs[i]) <= end_ms(
            cs[i],
        ) by {
            assert(timestamp_millis((rep.chapters@[i]).start_time@) <= timestamp_millis(
                rep.chapters@[i].end_time@,
            ));
        }
        assert forall|i: int| 0 <= i < cs.len() - 1 implies end_ms(#[trigger] cs[i]) <= start_ms(
            cs[i + 1],
        ) by {
            assert(timestamp_millis((rep.chapters@[i]).end_time@) <= timestamp_millis(
                rep.chapters@[i + 1].start_time@,
            ));
        }
    }
    if json_sorted(j) {
        assert forall|i: int| 0 <= i < rep.chapters@.len() implies timestamp_millis(
            (#[trigger] rep.chapters@[i]).start_time@,
        ) <= timestamp_millis(rep.chapters@[i].end_time@) by {
            assert(start_ms(cs[i]) <= end_ms(cs[i]));
        }
        assert forall|i: int| 0 <= i < rep.chapters@.len() - 1 implies timestamp_millis(
            (#[trigger] rep.chapters@[i]).end_time@,
        ) <= timestamp_millis(rep.chapters@[i + 1].start_time@) by {
            assert(end_ms(cs[i]) <= start_ms(cs[i + 1]));
        }
    }
}

/// Metadata converted from a lifted report carries exactly what the
/// report's document says.
proof fn lemma_metadata_bridge(m: Metadata, rep: report::Metadata, j: Json)
    requires
        report_matches(rep, j),
        m.title@ == tag_or_empty(rep.format.tags.title),
        m.artist@ == tag_or_empty(rep.format.tags.artist),
        m.duration.millis == timestamp_millis(rep.format.duration@),
        m.chapters@.len() == rep.chapters@.len(),
        forall|i: int|
            0 <= i < rep.chapters@.len() ==> chapter_matches(
                #[trigger] m.chapters@[i],
                rep.chapters@[i],
            ),
    ensures
        metadata_matches_json(m, j),
{
    let cs = chapters_seq(j);
    assert(tag_or_empty(rep.format.tags.title) == text_or_empty(opt_text(rep.format.tags.title)));
    assert(tag_or_empty(rep.format.tags.artist) == text_or_empty(
        opt_text(rep.format.tags.artist),
    ));
    assert forall|i: int| 0 <= i < m.chapters@.len() implies json_chapter_matches(
        #[trigger] m.chapters@[i],
        cs[i],
    ) by {
        assert(chapter_matches(m.chapters@[i], rep.chapters@[i]));
        assert(rchapter_matches(rep.chapters@[i], cs[i]));
        assert(tag_or_empty(rep.chapters@[i].tags.title) == text_or_empty(
            opt_text(rep.chapters@[i].tags.title),
        ));
    }
}

impl Clone for Metadata {
    /// A clone describes the same book: every field agrees by contents.
    fn clone(&self) -> (r: Metadata)
        ensures
            same_book(r, *self),
    {
        let mut chapters: Vec<Chapter> = Vec::new();
        let n = self.chapters.len();
        let mut i: usize = 0;
        while i < n
            invariant
                i <= n,
                n == self.chapters@.len(),
                chapters@.len() == i,
                forall|j: int| 0 <= j < i ==> #[trigger] chapters@[j] == self.chapters@[j],
            decreases n - i,
        {
            chapters.push(self.chapters[i].clone());
            i = i + 1;
        }
        proof {
            assert(chapters@ =~= self.chapters@);
        }
        Metadata {
            path: self.path.clone(),
            title: self.title.clone(),
            artist: self.artist.clone(),
            duration: self.duration,
            chapters,
        }
    }
}

/// The round trip over a whole report: any metadata that `from_report`
/// returned for a well-formed report carries, in every chapter boundary
/// and in the total duration, the reported decimal-second value to within
/// one millisecond.
pub proof fn lemma_report_round_trip(m: Metadata, rep: report::Metadata)
    requires
        report_times_ok(rep),
        m.chapters@.len() == rep.chapters@.len(),
        forall|i: int|
            0 <= i < rep.chapters@.len() ==> chapter_matches(
                #[trigger] m.chapters@[i],
                rep.chapters@[i],
            ),
        m.duration.millis == timestamp_millis(rep.format.duration@),
    ensures
        forall|i: int|
            0 <= i < rep.chapters@.len() ==> {
                &&& reproduces_seconds(
                    m.chapters@[i].start.millis as nat,
                    (#[trigger] rep.chapters@[i]).start_time@,
                )
                &&& reproduces_seconds(m.chapters@[i].end.millis as nat, rep.chapters@[i].end_time@)
            },
        reproduces_seconds(m.duration.millis as nat, rep.format.duration@),
{
    assert forall|i: int| 0 <= i < rep.chapters@.len() implies {
        &&& reproduces_seconds(
            m.chapters@[i].start.millis as nat,
            (#[trigger] rep.chapters@[i]).start_time@,
        )
        &&& reproduces_seconds(m.chapters@[i].end.millis as nat, rep.chapters@[i].end_time@)
    } by {
        lemma_timestamp_round_trip(rep.chapters@[i].start_time@);
        lemma_timestamp_round_trip(rep.chapters@[i].end_time@);
    }
    lemma_timestamp_round_trip(rep.format.duration@);
}

/// The duration a decimal-seconds time field of a probe report denotes.
pub fn millis_to_time(millis: String) -> (r: Duration)
    requires
        is_valid_timestamp(millis@),
        timestamp_millis(millis@) <= u64::MAX,
    ensures
        r.millis == timestamp_millis(millis@),
{
    match parse_timestamp(millis.as_str()) {
        Ok(d) => d,
        Err(_) => vstd::pervasive::unreached(),
    }
}

} // verus!
