//! Verified ingestion of GPX track uploads.
//!
//! The entry point is [`parse`]: it takes the raw bytes of an uploaded file
//! and returns either a fully validated [`model::GpxDocument`] or a
//! [`model::ParseFailure`] naming exactly what was wrong. No partially
//! populated document is ever returned, and the parser performs no I/O and
//! holds no state: the same bytes always yield the same result, which
//! [`spec_parse`] states in full.
//!
//! The pipeline has three stages: UTF-8 validation ([`encoding`]), the
//! structural pass over the XML ([`scan`] and [`grammar`]), and validation of
//! every point's fields ([`validate`]). The [`laws`] module proves the
//! parser's document-level guarantees.

pub mod chars;
pub mod decimal;
pub mod encoding;
pub mod grammar;
pub mod laws;
pub mod model;
pub mod scan;
pub mod timestamp;
pub mod validate;

use vstd::prelude::*;

use crate::encoding::spec_utf8_from;
use crate::encoding::utf8_ok;
use crate::grammar::document_x;
use crate::grammar::spec_document;
use crate::model::AccessError;
use crate::model::GpxDocument;
use crate::model::ParseFailure;
use crate::model::SpecDocument;
use crate::model::Track;
use crate::model::TrackPoint;
use crate::model::TrackSegment;
use crate::validate::spec_validate;
use crate::validate::validate;

verus! {

/// What `parse` returns on the byte sequence `s`: `EncodingError` when `s`
/// is not UTF-8, `Malformed` when it is not a well-formed document with a
/// `gpx` root, otherwise the outcome of validating every point.
pub open spec fn spec_parse(s: Seq<u8>) -> Result<SpecDocument, ParseFailure> {
    if !spec_utf8_from(s, 0) {
        Err(ParseFailure::EncodingError)
    } else {
        match spec_document(s) {
            None => Err(ParseFailure::Malformed),
            Some(raw) => spec_validate(raw),
        }
    }
}

/// Parses one uploaded payload. Same bytes, same result; on failure no
/// partial document is returned.
pub fn parse(bytes: &[u8]) -> (r: Result<GpxDocument, ParseFailure>)
    ensures
        match r {
            Ok(d) => spec_parse(bytes@) == Ok::<SpecDocument, ParseFailure>(d@),
            Err(f) => spec_parse(bytes@) == Err::<SpecDocument, ParseFailure>(f),
        },
{
    if !utf8_ok(bytes) {
        return Err(ParseFailure::EncodingError);
    }
    match document_x(bytes) {
        None => Err(ParseFailure::Malformed),
        Some(raw) => validate(raw),
    }
}

/// Like `parse`, but treats a document without any track as a failure
/// (`EmptyDocument`) instead of a valid empty result.
pub fn parse_non_empty(bytes: &[u8]) -> (r: Result<GpxDocument, ParseFailure>)
    ensures
        match r {
            Ok(d) => spec_parse(bytes@) == Ok::<SpecDocument, ParseFailure>(d@) && d@.tracks.len()
                > 0,
            Err(f) => spec_parse(bytes@) == Err::<SpecDocument, ParseFailure>(f) || (f
                == ParseFailure::EmptyDocument && match spec_parse(bytes@) {
                Ok(sd) => sd.tracks.len() == 0,
                Err(_) => false,
            }),
        },
{
    match parse(bytes) {
        Ok(d) => {
            if d.tracks.len() == 0 {
                Err(ParseFailure::EmptyDocument)
            } else {
                Ok(d)
            }
        },
        Err(f) => Err(f),
    }
}

impl GpxDocument {
    /// The first track of the document, or `NoTracksPresent` if the document
    /// declares none.
    pub fn first_track(&self) -> (r: Result<&Track, AccessError>)
        ensures
            self@.tracks.len() == 0 ==> r == Err::<&Track, AccessError>(
                AccessError::NoTracksPresent,
            ),
            self@.tracks.len() > 0 ==> r is Ok && r->Ok_0@ == self@.tracks[0],
    {
        if self.tracks.len() == 0 {
            Err(AccessError::NoTracksPresent)
        } else {
            Ok(&self.tracks[0])
        }
    }

    /// The first segment of the first track, the common single-track upload
    /// case: fails with `NoTracksPresent` or `NoSegmentsPresent`, each a
    /// recoverable condition.
    pub fn first_track_segment(&self) -> (r: Result<&TrackSegment, AccessError>)
        ensures
            self@.tracks.len() == 0 ==> r == Err::<&TrackSegment, AccessError>(
                AccessError::NoTracksPresent,
            ),
            self@.tracks.len() > 0 && self@.tracks[0].segments.len() == 0 ==> r == Err::<
                &TrackSegment,
                AccessError,
            >(AccessError::NoSegmentsPresent),
            self@.tracks.len() > 0 && self@.tracks[0].segments.len() > 0 ==> r is Ok && r->Ok_0@
                == self@.tracks[0].segments[0],
    {
        match self.first_track() {
            Ok(t) => t.first_segment(),
            Err(e) => Err(e),
        }
    }
}

impl Track {
    /// The first segment of the track, or `NoSegmentsPresent` if it has
    /// none.
    pub fn first_segment(&self) -> (r: Result<&TrackSegment, AccessError>)
        ensures
            self@.segments.len() == 0 ==> r == Err::<&TrackSegment, AccessError>(
                AccessError::NoSegmentsPresent,
            ),
            self@.segments.len() > 0 ==> r is Ok && r->Ok_0@ == self@.segments[0],
    {
        if self.segments.len() == 0 {
            Err(AccessError::NoSegmentsPresent)
        } else {
            Ok(&self.segments[0])
        }
    }
}

impl TrackSegment {
    /// The first point of the segment, if any.
    pub fn first_point(&self) -> (r: Option<&TrackPoint>)
        ensures
            self@.points.len() == 0 ==> r is None,
            self@.points.len() > 0 ==> r is Some && r->0@ == self@.points[0],
    {
        if self.points.len() == 0 {
            None
        } else {
            Some(&self.points[0])
        }
    }
}

} // verus!
