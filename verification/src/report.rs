//! The probe's report, as reported: tag blocks whose fields may be absent,
//! and time fields still in their decimal-seconds spelling. The reader
//! below lifts a parsed JSON document into this shape, exactly: it
//! succeeds if and only if the document has the report's shape, and what
//! it returns is pinned, field by field, to the document's model.
//! `metadata` then converts and validates the lifted report.
use vstd::prelude::*;

use crate::json;
use crate::json::{arr_elems, field, text_field, Json};

verus! {

/// A tag block of the report; either field may be absent in the source.
#[derive(Debug)]
pub struct Tags {
    pub title: Option<String>,
    pub artist: Option<String>,
}

/// One chapter as reported: its tags and its boundaries as
/// decimal-seconds strings.
#[derive(Debug)]
pub struct Chapter {
    pub tags: Tags,
    pub start_time: String,
    pub end_time: String,
}

/// The container-level section of the report.
#[derive(Debug)]
pub struct Format {
    pub tags: Tags,
    pub duration: String,
}

/// A whole probe report: the chapter list and the container section.
#[derive(Debug)]
pub struct Metadata {
    pub chapters: Vec<Chapter>,
    pub format: Format,
}

/// The view of an optional tag.
pub open spec fn opt_text(o: Option<String>) -> Option<Seq<char>> {
    match o {
        Some(s) => Some(s@),
        None => None,
    }
}

/// The chapters array of a report document; empty when it is missing or
/// not an array.
pub open spec fn chapters_seq(j: Json) -> Seq<Json> {
    match field(j, "chapters"@) {
        Some(cj) => arr_elems(cj),
        None => Seq::empty(),
    }
}

/// The format section of a report document.
pub open spec fn fmt_of(j: Json) -> Json {
    match field(j, "format"@) {
        Some(fj) => fj,
        None => Json::Other,
    }
}

/// The text of one tag inside a section's tag block; `None` when the
/// block, the tag, or its string-ness is missing.
pub open spec fn tag_of(section: Json, key: Seq<char>) -> Option<Seq<char>> {
    match field(section, "tags"@) {
        Some(tv) => text_field(tv, key),
        None => None,
    }
}

/// A reported chapter: a tag block of any kind, and two time strings.
pub open spec fn chapter_shape_ok(cj: Json) -> bool {
    &&& field(cj, "tags"@) is Some
    &&& text_field(cj, "start_time"@) is Some
    &&& text_field(cj, "end_time"@) is Some
}

pub open spec fn format_shape_ok(fj: Json) -> bool {
    &&& field(fj, "tags"@) is Some
    &&& text_field(fj, "duration"@) is Some
}

/// The document has the report's shape: a `chapters` array whose entries
/// each hold a tag block and two time strings, and a `format` section
/// with a tag block and a duration string.
pub open spec fn report_shape_ok(j: Json) -> bool {
    &&& field(j, "chapters"@) matches Some(cj) && cj is Array
    &&& forall|i: int|
        0 <= i < chapters_seq(j).len() ==> chapter_shape_ok(#[trigger] chapters_seq(j)[i])
    &&& field(j, "format"@) matches Some(fj) && format_shape_ok(fj)
}

/// The lifted chapter carries exactly what the document's chapter says.
pub open spec fn rchapter_matches(rc: Chapter, cj: Json) -> bool {
    &&& opt_text(rc.tags.title) == tag_of(cj, "title"@)
    &&& opt_text(rc.tags.artist) == tag_of(cj, "artist"@)
    &&& Some(rc.start_time@) == text_field(cj, "start_time"@)
    &&& Some(rc.end_time@) == text_field(cj, "end_time"@)
}

/// The lifted report carries exactly what the document says: chapter for
/// chapter, tag for tag, time string for time string.
pub open spec fn report_matches(rep: Metadata, j: Json) -> bool {
    &&& report_shape_ok(j)
    &&& rep.chapters@.len() == chapters_seq(j).len()
    &&& forall|i: int|
        0 <= i < rep.chapters@.len() ==> rchapter_matches(
            #[trigger] rep.chapters@[i],
            chapters_seq(j)[i],
        )
    &&& opt_text(rep.format.tags.title) == tag_of(fmt_of(j), "title"@)
    &&& opt_text(rep.format.tags.artist) == tag_of(fmt_of(j), "artist"@)
    &&& Some(rep.format.duration@) == text_field(fmt_of(j), "duration"@)
}

/// Reads a tag block. An absent or non-string field is an absent tag, not
/// a malformed report.
fn tags_from_value(v: &serde_json::Value) -> (r: Tags)
    ensures
        opt_text(r.title) == text_field(json::model_of(*v), "title"@),
        opt_text(r.artist) == text_field(json::model_of(*v), "artist"@),
{
    let title = match json::value_get(v, "title") {
        Some(t) => json::value_as_string(t),
        None => None,
    };
    let artist = match json::value_get(v, "artist") {
        Some(t) => json::value_as_string(t),
        None => None,
    };
    Tags { title, artist }
}

impl Metadata {
    /// Lifts a parsed JSON document into the report shape: `Some` exactly
    /// when the document has that shape, and then field for field what the
    /// document holds.
    pub(crate) fn from_value(v: &serde_json::Value) -> (r: Option<Metadata>)
        ensures
            r is Some <==> report_shape_ok(json::model_of(*v)),
            r matches Some(rep) ==> report_matches(rep, json::model_of(*v)),
    {
        let ghost j = json::model_of(*v);
        let chapters_v = match json::value_get(v, "chapters") {
            Some(c) => c,
            None => {
                return None;
            },
        };
        let arr = match json::value_as_array(chapters_v) {
            Some(a) => a,
            None => {
                return None;
            },
        };
        let ghost elems = chapters_seq(j);
        let mut chapters: Vec<Chapter> = Vec::new();
        let n = arr.len();
        let mut i: usize = 0;
        while i < n
            invariant
                i <= n,
                n == arr@.len(),
                n == elems.len(),
                j == json::model_of(*v),
                elems == chapters_seq(j),
                forall|i2: int| 0 <= i2 < n ==> json::model_of(#[trigger] arr@[i2]) == elems[i2],
                chapters@.len() == i,
                forall|i2: int| 0 <= i2 < i ==> chapter_shape_ok(#[trigger] elems[i2]),
                forall|i2: int|
                    0 <= i2 < i ==> rchapter_matches(#[trigger] chapters@[i2], elems[i2]),
            decreases n - i,
        {
            let item = &arr[i];
            let tags_v = match json::value_get(item, "tags") {
                Some(t) => t,
                None => {
                    proof {
                        assert(chapters_seq(j)[i as int] == elems[i as int]);
                        assert(!chapter_shape_ok(chapters_seq(j)[i as int]));
                    }
                    return None;
                },
            };
            let start_time = match json::value_get(item, "start_time") {
                Some(t) => match json::value_as_string(t) {
                    Some(s) => s,
                    None => {
                        proof {
                            assert(chapters_seq(j)[i as int] == elems[i as int]);
                            assert(!chapter_shape_ok(chapters_seq(j)[i as int]));
                        }
                        return None;
                    },
                },
                None => {
                    proof {
                        assert(chapters_seq(j)[i as int] == elems[i as int]);
                        assert(!chapter_shape_ok(chapters_seq(j)[i as int]));
                    }
                    return None;
                },
            };
            let end_time = match json::value_get(item, "end_time") {
                Some(t) => match json::value_as_string(t) {
                    Some(s) => s,
                    None => {
                        proof {
                            assert(chapters_seq(j)[i as int] == elems[i as int]);
                            assert(!chapter_shape_ok(chapters_seq(j)[i as int]));
                        }
                        return None;
                    },
                },
                None => {
                    proof {
                        assert(chapters_seq(j)[i as int] == elems[i as int]);
                        assert(!chapter_shape_ok(chapters_seq(j)[i as int]));
                    }
                    return None;
                },
            };
            chapters.push(Chapter { tags: tags_from_value(tags_v), start_time, end_time });
            i = i + 1;
        }
        let format_v = match json::value_get(v, "format") {
            Some(f) => f,
            None => {
                return None;
            },
        };
        let ftags_v = match json::value_get(format_v, "tags") {
            Some(t) => t,
            None => {
                return None;
            },
        };
        let duration = match json::value_get(format_v, "duration") {
            Some(t) => match json::value_as_string(t) {
                Some(s) => s,
                None => {
                    return None;
                },
            },
            None => {
                return None;
            },
        };
        Some(Metadata { chapters, format: Format { tags: tags_from_value(ftags_v), duration } })
    }
}

} // verus!
