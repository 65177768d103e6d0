//! The document model a successful parse produces, its mathematical
//! counterpart, and the failure taxonomy.
//!
//! Coordinates and elevations are decimal numbers in the GPX source; they are
//! held as fixed-point integers scaled by one billion (nanodegrees for
//! latitude and longitude, nanometers for elevation), so that every value the
//! parser accepts is represented exactly.

use vstd::prelude::*;

verus! {

/// Why a byte payload was rejected by `parse`.
#[derive(Clone, Copy, Debug, PartialEq, Eq)]
pub enum ParseFailure {
    /// The input is not well-formed XML, or its root element is not `gpx`.
    Malformed,
    /// The input is not a valid UTF-8 byte sequence.
    EncodingError,
    /// A `trkpt` is missing `lat` or `lon`, or one of them is not a decimal
    /// number within its valid range.
    InvalidCoordinate,
    /// An `ele` child of a `trkpt` is not a decimal number.
    InvalidElevation,
    /// A `time` child of a `trkpt` is not a well-formed date-time.
    InvalidTimestamp,
    /// The document declares no track at all (only reported by
    /// `parse_non_empty`; `parse` itself treats a trackless document as a
    /// valid empty result).
    EmptyDocument,
}

/// Why a "first track" / "first segment" accessor found nothing.
#[derive(Clone, Copy, Debug, PartialEq, Eq)]
pub enum AccessError {
    /// The document holds no track.
    NoTracksPresent,
    /// The track holds no segment.
    NoSegmentsPresent,
}

/// A parsed date-time: calendar fields, fractional seconds as nanoseconds,
/// and an optional UTC offset in minutes.
#[derive(Clone, Copy, Debug, PartialEq, Eq)]
pub struct Timestamp {
    pub year: u16,
    pub month: u8,
    pub day: u8,
    pub hour: u8,
    pub minute: u8,
    pub second: u8,
    pub nanos: u32,
    pub offset_minutes: Option<i32>,
}

/// A single recorded fix. `lat_e9` and `lon_e9` are degrees scaled by 10^9;
/// `ele_e9` is meters scaled by 10^9.
#[derive(Clone, Debug, PartialEq, Eq)]
pub struct TrackPoint {
    pub lat_e9: i64,
    pub lon_e9: i64,
    pub ele_e9: Option<i64>,
    pub time: Option<Timestamp>,
}

/// A contiguous run of recorded points.
#[derive(Clone, Debug, PartialEq, Eq)]
pub struct TrackSegment {
    pub points: Vec<TrackPoint>,
}

/// A recording session: an optional name and its segments. The name is the
/// raw UTF-8 text of the track's `name` element.
#[derive(Clone, Debug, PartialEq, Eq)]
pub struct Track {
    pub name: Option<Vec<u8>>,
    pub segments: Vec<TrackSegment>,
}

/// The fully parsed document: document-level metadata (raw UTF-8 text of
/// `metadata/name` and `metadata/time`, if declared) and the tracks in
/// source order.
#[derive(Clone, Debug, PartialEq, Eq)]
pub struct GpxDocument {
    pub name: Option<Vec<u8>>,
    pub time: Option<Vec<u8>>,
    pub tracks: Vec<Track>,
}

/// Mathematical counterpart of `Timestamp`.
pub ghost struct SpecTimestamp {
    pub year: int,
    pub month: int,
    pub day: int,
    pub hour: int,
    pub minute: int,
    pub second: int,
    pub nanos: int,
    pub offset_minutes: Option<int>,
}

/// Mathematical counterpart of `TrackPoint`.
pub ghost struct SpecPoint {
    pub lat: int,
    pub lon: int,
    pub ele: Option<int>,
    pub time: Option<SpecTimestamp>,
}

/// Mathematical counterpart of `TrackSegment`.
pub ghost struct SpecSegment {
    pub points: Seq<SpecPoint>,
}

/// Mathematical counterpart of `Track`.
pub ghost struct SpecTrack {
    pub name: Option<Seq<u8>>,
    pub segments: Seq<SpecSegment>,
}

/// Mathematical counterpart of `GpxDocument`.
pub ghost struct SpecDocument {
    pub name: Option<Seq<u8>>,
    pub time: Option<Seq<u8>>,
    pub tracks: Seq<SpecTrack>,
}

pub open spec fn view_bytes_opt(o: Option<Vec<u8>>) -> Option<Seq<u8>> {
    match o {
        Some(v) => Some(v@),
        None => None,
    }
}

impl View for Timestamp {
    type V = SpecTimestamp;

    open spec fn view(&self) -> SpecTimestamp {
        SpecTimestamp {
            year: self.year as int,
            month: self.month as int,
            day: self.day as int,
            hour: self.hour as int,
            minute: self.minute as int,
            second: self.second as int,
            nanos: self.nanos as int,
            offset_minutes: match self.offset_minutes {
                Some(m) => Some(m as int),
                None => None,
            },
        }
    }
}

impl View for TrackPoint {
    type V = SpecPoint;

    open spec fn view(&self) -> SpecPoint {
        SpecPoint {
            lat: self.lat_e9 as int,
            lon: self.lon_e9 as int,
            ele: match self.ele_e9 {
                Some(e) => Some(e as int),
                None => None,
            },
            time: match self.time {
                Some(t) => Some(t@),
                None => None,
            },
        }
    }
}

impl View for TrackSegment {
    type V = SpecSegment;

    open spec fn view(&self) -> SpecSegment {
        SpecSegment { points: self.points@.map_values(|p: TrackPoint| p@) }
    }
}

impl View for Track {
    type V = SpecTrack;

    open spec fn view(&self) -> SpecTrack {
        SpecTrack {
            name: view_bytes_opt(self.name),
            segments: self.segments@.map_values(|s: TrackSegment| s@),
        }
    }
}

impl View for GpxDocument {
    type V = SpecDocument;

    open spec fn view(&self) -> SpecDocument {
        SpecDocument {
            name: view_bytes_opt(self.name),
            time: view_bytes_opt(self.time),
            tracks: self.tracks@.map_values(|t: Track| t@),
        }
    }
}

/// What the structural pass records of one `trkpt` before validation: the
/// raw bytes of its `lat`/`lon` attributes and of its `ele`/`time` children,
/// each absent if the source does not declare it.
#[derive(Clone, Debug, PartialEq, Eq)]
pub struct RawPoint {
    pub lat: Option<Vec<u8>>,
    pub lon: Option<Vec<u8>>,
    pub ele: Option<Vec<u8>>,
    pub time: Option<Vec<u8>>,
}

/// What the structural pass records of one `trk`.
#[derive(Clone, Debug, PartialEq, Eq)]
pub struct RawTrack {
    pub name: Option<Vec<u8>>,
    pub segments: Vec<Vec<RawPoint>>,
}

/// What the structural pass records of a whole document.
#[derive(Clone, Debug, PartialEq, Eq)]
pub struct RawDocument {
    pub name: Option<Vec<u8>>,
    pub time: Option<Vec<u8>>,
    pub tracks: Vec<RawTrack>,
}

/// Mathematical counterpart of `RawPoint`.
pub ghost struct SpecRawPoint {
    pub lat: Option<Seq<u8>>,
    pub lon: Option<Seq<u8>>,
    pub ele: Option<Seq<u8>>,
    pub time: Option<Seq<u8>>,
}

/// Mathematical counterpart of `RawTrack`.
pub ghost struct SpecRawTrack {
    pub name: Option<Seq<u8>>,
    pub segments: Seq<Seq<SpecRawPoint>>,
}

/// Mathematical counterpart of `RawDocument`.
pub ghost struct SpecRawDocument {
    pub name: Option<Seq<u8>>,
    pub time: Option<Seq<u8>>,
    pub tracks: Seq<SpecRawTrack>,
}

impl View for RawPoint {
    type V = SpecRawPoint;

    open spec fn view(&self) -> SpecRawPoint {
        SpecRawPoint {
            lat: view_bytes_opt(self.lat),
            lon: view_bytes_opt(self.lon),
            ele: view_bytes_opt(self.ele),
            time: view_bytes_opt(self.time),
        }
    }
}

impl View for RawTrack {
    type V = SpecRawTrack;

    open spec fn view(&self) -> SpecRawTrack {
        SpecRawTrack {
            name: view_bytes_opt(self.name),
            segments: self.segments@.map_values(|s: Vec<RawPoint>| s@.map_values(|p: RawPoint| p@)),
        }
    }
}

impl View for RawDocument {
    type V = SpecRawDocument;

    open spec fn view(&self) -> SpecRawDocument {
        SpecRawDocument {
            name: view_bytes_opt(self.name),
            time: view_bytes_opt(self.time),
            tracks: self.tracks@.map_values(|t: RawTrack| t@),
        }
    }
}

} // verus!
