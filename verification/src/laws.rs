//! Document-level guarantees of the parser, stated over `spec_parse` and
//! proved once and for all: decodable non-XML input is `Malformed`; a point
//! whose coordinate is out of range fails the whole parse with
//! `InvalidCoordinate` no matter how valid the rest of the document is; a
//! trackless document parses to an empty track sequence; and a fully valid
//! document parses to a document whose fields equal the parsed input values.

use vstd::prelude::*;

use crate::decimal::spec_decimal;
use crate::encoding::spec_utf8_from;
use crate::grammar::spec_document;
use crate::model::ParseFailure;
use crate::model::SpecDocument;
use crate::model::SpecRawDocument;
use crate::model::SpecRawPoint;
use crate::model::SpecRawTrack;
use crate::spec_parse;
use crate::validate::in_lat_range;
use crate::validate::in_lon_range;
use crate::validate::lemma_doc_failure_skip;
use crate::validate::lemma_seg_failure_skip;
use crate::validate::lemma_trk_failure_skip;
use crate::validate::spec_doc_failure;
use crate::validate::spec_point_failure;
use crate::validate::spec_point_value;
use crate::validate::spec_seg_failure;
use crate::validate::spec_seg_value;
use crate::validate::spec_trk_failure;
use crate::validate::spec_trk_value;
use crate::validate::spec_validate;

verus! {

/// The point of the scanned document at track `ti`, segment `si`, index `pi`.
pub open spec fn point_at(raw: SpecRawDocument, ti: int, si: int, pi: int) -> SpecRawPoint {
    raw.tracks[ti].segments[si][pi]
}

pub open spec fn valid_point_index(raw: SpecRawDocument, ti: int, si: int, pi: int) -> bool {
    0 <= ti < raw.tracks.len() && 0 <= si < raw.tracks[ti].segments.len() && 0 <= pi
        < raw.tracks[ti].segments[si].len()
}

/// A segment with no failure has only valid points.
pub proof fn lemma_seg_none_means_valid(v: Seq<SpecRawPoint>)
    requires
        spec_seg_failure(v) is None,
    ensures
        forall|j: int| 0 <= j < v.len() ==> spec_point_failure(#[trigger] v[j]) is None,
    decreases v.len(),
{
    if v.len() > 0 {
        lemma_seg_none_means_valid(v.drop_first());
        assert forall|j: int| 0 <= j < v.len() implies spec_point_failure(#[trigger] v[j])
            is None by {
            if j > 0 {
                assert(v.drop_first()[j - 1] == v[j]);
            }
        }
    }
}

/// A track with no failure has only failure-free segments.
pub proof fn lemma_trk_none_means_valid(segs: Seq<Seq<SpecRawPoint>>)
    requires
        spec_trk_failure(segs) is None,
    ensures
        forall|j: int| 0 <= j < segs.len() ==> spec_seg_failure(#[trigger] segs[j]) is None,
    decreases segs.len(),
{
    if segs.len() > 0 {
        lemma_trk_none_means_valid(segs.drop_first());
        assert forall|j: int| 0 <= j < segs.len() implies spec_seg_failure(#[trigger] segs[j])
            is None by {
            if j > 0 {
                assert(segs.drop_first()[j - 1] == segs[j]);
            }
        }
    }
}

/// A document with no failure has only failure-free tracks.
pub proof fn lemma_doc_none_means_valid(trks: Seq<SpecRawTrack>)
    requires
        spec_doc_failure(trks) is None,
    ensures
        forall|j: int| 0 <= j < trks.len() ==> spec_trk_failure((#[trigger] trks[j]).segments)
            is None,
    decreases trks.len(),
{
    if trks.len() > 0 {
        lemma_doc_none_means_valid(trks.drop_first());
        assert forall|j: int| 0 <= j < trks.len() implies spec_trk_failure(
            (#[trigger] trks[j]).segments,
        ) is None by {
            if j > 0 {
                assert(trks.drop_first()[j - 1] == trks[j]);
            }
        }
    }
}

/// If every point is valid or fails on its coordinates, a segment's failure
/// can only be `InvalidCoordinate`.
pub proof fn lemma_seg_cases(v: Seq<SpecRawPoint>)
    requires
        forall|j: int|
            0 <= j < v.len() ==> (spec_point_failure(#[trigger] v[j]) is None || spec_point_failure(
                v[j],
            ) == Some(ParseFailure::InvalidCoordinate)),
    ensures
        spec_seg_failure(v) is None || spec_seg_failure(v) == Some(ParseFailure::InvalidCoordinate),
    decreases v.len(),
{
    if v.len() > 0 {
        assert forall|j: int| 0 <= j < v.drop_first().len() implies (spec_point_failure(
            #[trigger] v.drop_first()[j],
        ) is None || spec_point_failure(v.drop_first()[j]) == Some(
            ParseFailure::InvalidCoordinate,
        )) by {
            assert(v.drop_first()[j] == v[j + 1]);
        }
        lemma_seg_cases(v.drop_first());
    }
}

/// If every segment's failure is absent or `InvalidCoordinate`, so is the
/// track's.
pub proof fn lemma_trk_cases(segs: Seq<Seq<SpecRawPoint>>)
    requires
        forall|j: int|
            0 <= j < segs.len() ==> (spec_seg_failure(#[trigger] segs[j]) is None
                || spec_seg_failure(segs[j]) == Some(ParseFailure::InvalidCoordinate)),
    ensures
        spec_trk_failure(segs) is None || spec_trk_failure(segs) == Some(
            ParseFailure::InvalidCoordinate,
        ),
    decreases segs.len(),
{
    if segs.len() > 0 {
        assert forall|j: int| 0 <= j < segs.drop_first().len() implies (spec_seg_failure(
            #[trigger] segs.drop_first()[j],
        ) is None || spec_seg_failure(segs.drop_first()[j]) == Some(
            ParseFailure::InvalidCoordinate,
        )) by {
            assert(segs.drop_first()[j] == segs[j + 1]);
        }
        lemma_trk_cases(segs.drop_first());
    }
}

/// If every track's failure is absent or `InvalidCoordinate`, so is the
/// document's.
pub proof fn lemma_doc_cases(trks: Seq<SpecRawTrack>)
    requires
        forall|j: int|
            0 <= j < trks.len() ==> (spec_trk_failure((#[trigger] trks[j]).segments) is None
                || spec_trk_failure(trks[j].segments) == Some(ParseFailure::InvalidCoordinate)),
    ensures
        spec_doc_failure(trks) is None || spec_doc_failure(trks) == Some(
            ParseFailure::InvalidCoordinate,
        ),
    decreases trks.len(),
{
    if trks.len() > 0 {
        assert forall|j: int| 0 <= j < trks.drop_first().len() implies (spec_trk_failure(
            (#[trigger] trks.drop_first()[j]).segments,
        ) is None || spec_trk_failure(trks.drop_first()[j].segments) == Some(
            ParseFailure::InvalidCoordinate,
        )) by {
            assert(trks.drop_first()[j] == trks[j + 1]);
        }
        lemma_doc_cases(trks.drop_first());
    }
}

/// A point whose latitude or longitude reads as a number outside its range
/// is invalid exactly with `InvalidCoordinate`, whatever its other fields
/// hold.
pub proof fn lemma_out_of_range_point(p: SpecRawPoint)
    requires
        p.lat is Some,
        p.lon is Some,
        spec_decimal(p.lat.unwrap()) is Some,
        spec_decimal(p.lon.unwrap()) is Some,
        !in_lat_range(spec_decimal(p.lat.unwrap()).unwrap()) || !in_lon_range(
            spec_decimal(p.lon.unwrap()).unwrap(),
        ),
    ensures
        spec_point_failure(p) == Some(ParseFailure::InvalidCoordinate),
{
}

/// Decodable input that is not a well-formed document with a `gpx` root is
/// rejected as `Malformed`.
pub proof fn lemma_non_xml_rejected(s: Seq<u8>)
    requires
        spec_utf8_from(s, 0),
        spec_document(s) is None,
    ensures
        spec_parse(s) == Err::<SpecDocument, ParseFailure>(ParseFailure::Malformed),
{
}

/// A well-formed document that declares no track parses to a document with
/// an empty track sequence (on which the first-track accessor fails with
/// `NoTracksPresent`, by its own contract).
pub proof fn lemma_trackless_document_is_empty(s: Seq<u8>, raw: SpecRawDocument)
    requires
        spec_utf8_from(s, 0),
        spec_document(s) == Some(raw),
        raw.tracks.len() == 0,
    ensures
        spec_parse(s) is Ok,
        match spec_parse(s) {
            Ok(d) => d.tracks.len() == 0,
            Err(_) => false,
        },
{
    assert(spec_doc_failure(raw.tracks) is None);
}

/// Whole-document rejection: if some point's latitude or longitude is out
/// of range, and every point is otherwise valid (each point either valid or
/// failing only on its coordinates), the whole parse fails with
/// `InvalidCoordinate`.
pub proof fn lemma_whole_document_rejection(
    s: Seq<u8>,
    raw: SpecRawDocument,
    ti: int,
    si: int,
    pi: int,
)
    requires
        spec_utf8_from(s, 0),
        spec_document(s) == Some(raw),
        forall|a: int, b: int, c: int|
            valid_point_index(raw, a, b, c) ==> (spec_point_failure(
                #[trigger] point_at(raw, a, b, c),
            ) is None || spec_point_failure(point_at(raw, a, b, c)) == Some(
                ParseFailure::InvalidCoordinate,
            )),
        valid_point_index(raw, ti, si, pi),
        spec_point_failure(point_at(raw, ti, si, pi)) == Some(ParseFailure::InvalidCoordinate),
    ensures
        spec_parse(s) == Err::<SpecDocument, ParseFailure>(ParseFailure::InvalidCoordinate),
{
    assert forall|a: int| 0 <= a < raw.tracks.len() implies (spec_trk_failure(
        (#[trigger] raw.tracks[a]).segments,
    ) is None || spec_trk_failure(raw.tracks[a].segments) == Some(
        ParseFailure::InvalidCoordinate,
    )) by {
        assert forall|b: int| 0 <= b < raw.tracks[a].segments.len() implies (spec_seg_failure(
            #[trigger] raw.tracks[a].segments[b],
        ) is None || spec_seg_failure(raw.tracks[a].segments[b]) == Some(
            ParseFailure::InvalidCoordinate,
        )) by {
            assert forall|c: int| 0 <= c < raw.tracks[a].segments[b].len() implies (
            spec_point_failure(#[trigger] raw.tracks[a].segments[b][c]) is None
                || spec_point_failure(raw.tracks[a].segments[b][c]) == Some(
                ParseFailure::InvalidCoordinate,
            )) by {
                assert(point_at(raw, a, b, c) == raw.tracks[a].segments[b][c]);
                assert(valid_point_index(raw, a, b, c));
            }
            lemma_seg_cases(raw.tracks[a].segments[b]);
        }
        lemma_trk_cases(raw.tracks[a].segments);
    }
    lemma_doc_cases(raw.tracks);
    if spec_doc_failure(raw.tracks) is None {
        lemma_doc_none_means_valid(raw.tracks);
        lemma_trk_none_means_valid(raw.tracks[ti].segments);
        lemma_seg_none_means_valid(raw.tracks[ti].segments[si]);
        assert(spec_point_failure(raw.tracks[ti].segments[si][pi]) is None);
        assert(false);
    }
}

/// Round trip for a fully valid document: the parse succeeds, keeps every
/// track, and the first point's latitude and longitude equal exactly the
/// numbers written in the input (as fixed-point values scaled by 10^9),
/// within their valid ranges.
pub proof fn lemma_valid_round_trip(s: Seq<u8>, raw: SpecRawDocument)
    requires
        spec_utf8_from(s, 0),
        spec_document(s) == Some(raw),
        forall|a: int, b: int, c: int|
            valid_point_index(raw, a, b, c) ==> spec_point_failure(
                #[trigger] point_at(raw, a, b, c),
            ) is None,
        raw.tracks.len() > 0,
        raw.tracks[0].segments.len() > 0,
        raw.tracks[0].segments[0].len() > 0,
    ensures
        spec_parse(s) is Ok,
        match spec_parse(s) {
            Ok(d) => d.tracks.len() == raw.tracks.len() && d.tracks[0].segments[0].points[0].lat
                == spec_decimal(point_at(raw, 0, 0, 0).lat.unwrap()).unwrap()
                && d.tracks[0].segments[0].points[0].lon == spec_decimal(
                point_at(raw, 0, 0, 0).lon.unwrap(),
            ).unwrap() && in_lat_range(d.tracks[0].segments[0].points[0].lat) && in_lon_range(
                d.tracks[0].segments[0].points[0].lon,
            ),
            Err(_) => false,
        },
{
    assert forall|a: int| 0 <= a < raw.tracks.len() implies spec_trk_failure(
        (#[trigger] raw.tracks[a]).segments,
    ) is None by {
        assert forall|b: int| 0 <= b < raw.tracks[a].segments.len() implies spec_seg_failure(
            #[trigger] raw.tracks[a].segments[b],
        ) is None by {
            assert forall|c: int| 0 <= c < raw.tracks[a].segments[b].len() implies
                spec_point_failure(#[trigger] raw.tracks[a].segments[b][c]) is None by {
                assert(point_at(raw, a, b, c) == raw.tracks[a].segments[b][c]);
                assert(valid_point_index(raw, a, b, c));
            }
            lemma_seg_failure_skip(raw.tracks[a].segments[b], raw.tracks[a].segments[b].len() as int);
            assert(raw.tracks[a].segments[b].skip(raw.tracks[a].segments[b].len() as int).len()
                == 0);
        }
        lemma_trk_failure_skip(raw.tracks[a].segments, raw.tracks[a].segments.len() as int);
        assert(raw.tracks[a].segments.skip(raw.tracks[a].segments.len() as int).len() == 0);
    }
    lemma_doc_failure_skip(raw.tracks, raw.tracks.len() as int);
    assert(raw.tracks.skip(raw.tracks.len() as int).len() == 0);
    let d = match spec_validate(raw) {
        Ok(d) => d,
        Err(_) => arbitrary(),
    };
    assert(d.tracks[0] == spec_trk_value(raw.tracks[0]));
    assert(d.tracks[0].segments[0] == spec_seg_value(raw.tracks[0].segments[0]));
    assert(d.tracks[0].segments[0].points[0] == spec_point_value(raw.tracks[0].segments[0][0]));
    assert(spec_point_failure(point_at(raw, 0, 0, 0)) is None);
}

} // verus!
