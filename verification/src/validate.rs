//! The validation pass: turns the structural output into the final document,
//! or rejects the whole payload on the first invalid point, in document
//! order. A point is checked in field order: latitude, longitude, elevation,
//! timestamp; the failure names the first field that is wrong.

use vstd::prelude::*;

use crate::decimal::parse_decimal;
use crate::decimal::spec_decimal;
use crate::grammar::raw_pts_view;
use crate::model::GpxDocument;
use crate::model::ParseFailure;
use crate::model::RawDocument;
use crate::model::RawPoint;
use crate::model::RawTrack;
use crate::model::SpecDocument;
use crate::model::SpecPoint;
use crate::model::SpecRawDocument;
use crate::model::SpecRawPoint;
use crate::model::SpecRawTrack;
use crate::model::SpecSegment;
use crate::model::SpecTrack;
use crate::model::Track;
use crate::model::TrackPoint;
use crate::model::TrackSegment;
use crate::timestamp::parse_timestamp;
use crate::timestamp::spec_timestamp;

verus! {

/// Latitude in degrees scaled by 10^9, within [-90, 90].
pub open spec fn in_lat_range(v: int) -> bool {
    -90_000_000_000 <= v <= 90_000_000_000
}

/// Longitude in degrees scaled by 10^9, within [-180, 180].
pub open spec fn in_lon_range(v: int) -> bool {
    -180_000_000_000 <= v <= 180_000_000_000
}

/// Why a single scanned point is invalid, or `None` if it is valid.
pub open spec fn spec_point_failure(p: SpecRawPoint) -> Option<ParseFailure> {
    if p.lat is None || spec_decimal(p.lat.unwrap()) is None || !in_lat_range(
        spec_decimal(p.lat.unwrap()).unwrap(),
    ) {
        Some(ParseFailure::InvalidCoordinate)
    } else if p.lon is None || spec_decimal(p.lon.unwrap()) is None || !in_lon_range(
        spec_decimal(p.lon.unwrap()).unwrap(),
    ) {
        Some(ParseFailure::InvalidCoordinate)
    } else if p.ele is Some && spec_decimal(p.ele.unwrap()) is None {
        Some(ParseFailure::InvalidElevation)
    } else if p.time is Some && spec_timestamp(p.time.unwrap()) is None {
        Some(ParseFailure::InvalidTimestamp)
    } else {
        None
    }
}

/// The validated value of a valid scanned point.
pub open spec fn spec_point_value(p: SpecRawPoint) -> SpecPoint {
    SpecPoint {
        lat: spec_decimal(p.lat.unwrap()).unwrap(),
        lon: spec_decimal(p.lon.unwrap()).unwrap(),
        ele: match p.ele {
            Some(e) => Some(spec_decimal(e).unwrap()),
            None => None,
        },
        time: match p.time {
            Some(t) => Some(spec_timestamp(t).unwrap()),
            None => None,
        },
    }
}

/// First failure among the points of one segment.
pub open spec fn spec_seg_failure(pts: Seq<SpecRawPoint>) -> Option<ParseFailure>
    decreases pts.len(),
{
    if pts.len() == 0 {
        None
    } else if spec_point_failure(pts[0]) is Some {
        spec_point_failure(pts[0])
    } else {
        spec_seg_failure(pts.drop_first())
    }
}

/// First failure among the segments of one track.
pub open spec fn spec_trk_failure(segs: Seq<Seq<SpecRawPoint>>) -> Option<ParseFailure>
    decreases segs.len(),
{
    if segs.len() == 0 {
        None
    } else if spec_seg_failure(segs[0]) is Some {
        spec_seg_failure(segs[0])
    } else {
        spec_trk_failure(segs.drop_first())
    }
}

/// First failure among the tracks of a document.
pub open spec fn spec_doc_failure(trks: Seq<SpecRawTrack>) -> Option<ParseFailure>
    decreases trks.len(),
{
    if trks.len() == 0 {
        None
    } else if spec_trk_failure(trks[0].segments) is Some {
        spec_trk_failure(trks[0].segments)
    } else {
        spec_doc_failure(trks.drop_first())
    }
}

pub open spec fn spec_seg_value(pts: Seq<SpecRawPoint>) -> SpecSegment {
    SpecSegment { points: pts.map_values(|p: SpecRawPoint| spec_point_value(p)) }
}

pub open spec fn spec_trk_value(t: SpecRawTrack) -> SpecTrack {
    SpecTrack {
        name: t.name,
        segments: t.segments.map_values(|pts: Seq<SpecRawPoint>| spec_seg_value(pts)),
    }
}

/// The validation pass: the first failure in document order, or the fully
/// converted document.
pub open spec fn spec_validate(raw: SpecRawDocument) -> Result<SpecDocument, ParseFailure> {
    match spec_doc_failure(raw.tracks) {
        Some(f) => Err(f),
        None => Ok(
            SpecDocument {
                name: raw.name,
                time: raw.time,
                tracks: raw.tracks.map_values(|t: SpecRawTrack| spec_trk_value(t)),
            },
        ),
    }
}

/// A segment's first failure ignores a prefix of valid points.
pub proof fn lemma_seg_failure_skip(v: Seq<SpecRawPoint>, k: int)
    requires
        0 <= k <= v.len(),
        forall|j: int| 0 <= j < k ==> spec_point_failure(#[trigger] v[j]) is None,
    ensures
        spec_seg_failure(v.skip(k)) == spec_seg_failure(v),
    decreases k,
{
    if k == 0 {
        assert(v.skip(0) =~= v);
    } else {
        lemma_seg_failure_skip(v, k - 1);
        assert(v.skip(k - 1)[0] == v[k - 1]);
        assert(v.skip(k - 1).drop_first() =~= v.skip(k));
    }
}

/// A track's first failure ignores a prefix of valid segments.
pub proof fn lemma_trk_failure_skip(v: Seq<Seq<SpecRawPoint>>, k: int)
    requires
        0 <= k <= v.len(),
        forall|j: int| 0 <= j < k ==> spec_seg_failure(#[trigger] v[j]) is None,
    ensures
        spec_trk_failure(v.skip(k)) == spec_trk_failure(v),
    decreases k,
{
    if k == 0 {
        assert(v.skip(0) =~= v);
    } else {
        lemma_trk_failure_skip(v, k - 1);
        assert(v.skip(k - 1)[0] == v[k - 1]);
        assert(v.skip(k - 1).drop_first() =~= v.skip(k));
    }
}

/// A document's first failure ignores a prefix of valid tracks.
pub proof fn lemma_doc_failure_skip(v: Seq<SpecRawTrack>, k: int)
    requires
        0 <= k <= v.len(),
        forall|j: int| 0 <= j < k ==> spec_trk_failure((#[trigger] v[j]).segments) is None,
    ensures
        spec_doc_failure(v.skip(k)) == spec_doc_failure(v),
    decreases k,
{
    if k == 0 {
        assert(v.skip(0) =~= v);
    } else {
        lemma_doc_failure_skip(v, k - 1);
        assert(v.skip(k - 1)[0] == v[k - 1]);
        assert(v.skip(k - 1).drop_first() =~= v.skip(k));
    }
}

/// Checks one scanned point, deciding `spec_point_failure` and
/// `spec_point_value`.
pub fn validate_point(p: &RawPoint) -> (r: Result<TrackPoint, ParseFailure>)
    ensures
        match r {
            Ok(tp) => spec_point_failure(p@) is None && tp@ == spec_point_value(p@),
            Err(f) => spec_point_failure(p@) == Some(f),
        },
{
    let lat_e9: i64 = match &p.lat {
        Some(lv) => match parse_decimal(lv) {
            Some(x) => {
                if !(-90_000_000_000 <= x && x <= 90_000_000_000) {
                    return Err(ParseFailure::InvalidCoordinate);
                }
                x
            },
            None => {
                return Err(ParseFailure::InvalidCoordinate);
            },
        },
        None => {
            return Err(ParseFailure::InvalidCoordinate);
        },
    };
    let lon_e9: i64 = match &p.lon {
        Some(lv) => match parse_decimal(lv) {
            Some(x) => {
                if !(-180_000_000_000 <= x && x <= 180_000_000_000) {
                    return Err(ParseFailure::InvalidCoordinate);
                }
                x
            },
            None => {
                return Err(ParseFailure::InvalidCoordinate);
            },
        },
        None => {
            return Err(ParseFailure::InvalidCoordinate);
        },
    };
    let ele_e9: Option<i64> = match &p.ele {
        Some(ev) => match parse_decimal(ev) {
            Some(x) => Some(x),
            None => {
                return Err(ParseFailure::InvalidElevation);
            },
        },
        None => None,
    };
    let time = match &p.time {
        Some(tv) => match parse_timestamp(tv) {
            Some(t) => Some(t),
            None => {
                return Err(ParseFailure::InvalidTimestamp);
            },
        },
        None => None,
    };
    Ok(TrackPoint { lat_e9, lon_e9, ele_e9, time })
}

/// Checks the points of one segment in order, deciding `spec_seg_failure`
/// and `spec_seg_value`.
#[verifier::loop_isolation(false)]
pub fn validate_points(pts: &Vec<RawPoint>) -> (r: Result<TrackSegment, ParseFailure>)
    ensures
        match r {
            Ok(seg) => spec_seg_failure(raw_pts_view(pts@)) is None && seg@ == spec_seg_value(
                raw_pts_view(pts@),
            ),
            Err(f) => spec_seg_failure(raw_pts_view(pts@)) == Some(f),
        },
{
    let ghost v = raw_pts_view(pts@);
    let mut out: Vec<TrackPoint> = Vec::new();
    let mut k: usize = 0;
    while k < pts.len()
        invariant
            k <= pts@.len(),
            out@.len() == k,
            forall|j: int| 0 <= j < k ==> spec_point_failure(#[trigger] v[j]) is None,
            forall|j: int| 0 <= j < k ==> (#[trigger] out@[j])@ == spec_point_value(v[j]),
        decreases pts@.len() - k,
    {
        proof {
            assert(v[k as int] == pts@[k as int]@);
        }
        match validate_point(&pts[k]) {
            Ok(tp) => {
                out.push(tp);
                k = k + 1;
            },
            Err(f) => {
                proof {
                    lemma_seg_failure_skip(v, k as int);
                    assert(v.skip(k as int)[0] == v[k as int]);
                }
                return Err(f);
            },
        }
    }
    proof {
        lemma_seg_failure_skip(v, v.len() as int);
        assert(v.skip(v.len() as int).len() == 0);
    }
    let seg = TrackSegment { points: out };
    proof {
        assert(seg@.points =~= spec_seg_value(v).points);
    }
    Ok(seg)
}

/// Checks one track, deciding `spec_trk_failure` and `spec_trk_value`.
#[verifier::loop_isolation(false)]
pub fn validate_track(t: RawTrack) -> (r: Result<Track, ParseFailure>)
    ensures
        match r {
            Ok(tk) => spec_trk_failure(t@.segments) is None && tk@ == spec_trk_value(t@),
            Err(f) => spec_trk_failure(t@.segments) == Some(f),
        },
{
    let ghost tv = t@;
    let mut segs_out: Vec<TrackSegment> = Vec::new();
    let mut k: usize = 0;
    while k < t.segments.len()
        invariant
            k <= t.segments@.len(),
            segs_out@.len() == k,
            forall|j: int| 0 <= j < k ==> spec_seg_failure(#[trigger] tv.segments[j]) is None,
            forall|j: int| 0 <= j < k ==> (#[trigger] segs_out@[j])@ == spec_seg_value(
                tv.segments[j],
            ),
        decreases t.segments@.len() - k,
    {
        proof {
            assert(tv.segments[k as int] =~= raw_pts_view(t.segments@[k as int]@));
        }
        match validate_points(&t.segments[k]) {
            Ok(seg) => {
                segs_out.push(seg);
                k = k + 1;
            },
            Err(f) => {
                proof {
                    lemma_trk_failure_skip(tv.segments, k as int);
                    assert(tv.segments.skip(k as int)[0] == tv.segments[k as int]);
                }
                return Err(f);
            },
        }
    }
    proof {
        lemma_trk_failure_skip(tv.segments, tv.segments.len() as int);
        assert(tv.segments.skip(tv.segments.len() as int).len() == 0);
    }
    let tk = Track { name: t.name, segments: segs_out };
    proof {
        assert(tk@.segments =~= spec_trk_value(tv).segments);
        assert(tk@.name == tv.name);
    }
    Ok(tk)
}

/// Runs the validation pass on a scanned document, deciding `spec_validate`.
#[verifier::loop_isolation(false)]
pub fn validate(raw: RawDocument) -> (r: Result<GpxDocument, ParseFailure>)
    ensures
        match r {
            Ok(d) => spec_validate(raw@) == Ok::<SpecDocument, ParseFailure>(d@),
            Err(f) => spec_validate(raw@) == Err::<SpecDocument, ParseFailure>(f),
        },
{
    let ghost rv = raw@;
    let name = raw.name;
    let time = raw.time;
    let mut tracks_in = raw.tracks;
    let mut out: Vec<Track> = Vec::new();
    while tracks_in.len() > 0
        invariant
            out@.len() + tracks_in@.len() == rv.tracks.len(),
            forall|j: int| 0 <= j < tracks_in@.len() ==> (#[trigger] tracks_in@[j])@ == rv.tracks[
                out@.len() + j],
            forall|j: int| 0 <= j < out@.len() ==> spec_trk_failure(
                (#[trigger] rv.tracks[j]).segments,
            ) is None,
            forall|j: int| 0 <= j < out@.len() ==> (#[trigger] out@[j])@ == spec_trk_value(
                rv.tracks[j],
            ),
        decreases tracks_in@.len(),
    {
        let ghost before = tracks_in@;
        let ghost k: int = out@.len() as int;
        let t = tracks_in.remove(0);
        proof {
            assert(t@ == rv.tracks[k]);
            assert forall|j: int| 0 <= j < tracks_in@.len() implies (#[trigger] tracks_in@[j])@
                == rv.tracks[k + 1 + j] by {
                assert(tracks_in@[j] == before[j + 1]);
            }
        }
        match validate_track(t) {
            Ok(tk) => {
                out.push(tk);
            },
            Err(f) => {
                proof {
                    lemma_doc_failure_skip(rv.tracks, k);
                    assert(rv.tracks.skip(k)[0] == rv.tracks[k]);
                }
                return Err(f);
            },
        }
    }
    proof {
        lemma_doc_failure_skip(rv.tracks, rv.tracks.len() as int);
        assert(rv.tracks.skip(rv.tracks.len() as int).len() == 0);
    }
    let d = GpxDocument { name, time, tracks: out };
    proof {
        assert(d@.tracks =~= rv.tracks.map_values(|t: SpecRawTrack| spec_trk_value(t)));
    }
    Ok(d)
}

} // verus!
