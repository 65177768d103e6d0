//! The GPX element hierarchy: `gpx` holding optional `metadata` (with `name`
//! and `time`), and `trk` elements holding an optional `name` and `trkseg`
//! elements, which hold `trkpt` elements with `lat`/`lon` attributes and
//! optional `ele`/`time` children. Elements of any other name are accepted
//! and skipped, so any schema-valid document passes the structural stage.
//!
//! `spec_document` defines the structural pass; `document_x` decides it.

use vstd::prelude::*;

use crate::chars::B_BANG;
use crate::chars::B_GT;
use crate::chars::B_LT;
use crate::chars::B_MINUS;
use crate::chars::B_SLASH;
use crate::chars::B_A;
use crate::chars::B_D;
use crate::chars::B_E;
use crate::chars::B_G;
use crate::chars::B_I;
use crate::chars::B_K;
use crate::chars::B_L;
use crate::chars::B_M;
use crate::chars::B_N;
use crate::chars::B_O;
use crate::chars::B_P;
use crate::chars::B_R;
use crate::chars::B_S;
use crate::chars::B_T;
use crate::chars::B_X;
use crate::model::RawDocument;
use crate::model::RawPoint;
use crate::model::RawTrack;
use crate::model::SpecRawDocument;
use crate::model::SpecRawPoint;
use crate::model::SpecRawTrack;
use crate::model::view_bytes_opt;
use crate::scan::attr_val;
use crate::scan::attr_lookup3;
use crate::scan::attrs_view;
use crate::scan::comment_at;
use crate::scan::comment_end;
use crate::scan::comment_end_x;
use crate::scan::misc_end;
use crate::scan::misc_end_x;
use crate::scan::open_tag_x;
use crate::scan::close_tag_x;
use crate::scan::range_is3;
use crate::scan::range_is4;
use crate::scan::range_is5;
use crate::scan::range_is6;
use crate::scan::range_is8;
use crate::scan::skip_balanced_x;
use crate::scan::leaf_text_x;
use crate::scan::spec_close_tag;
use crate::scan::spec_leaf_text;
use crate::scan::spec_open_tag;
use crate::scan::spec_skip_balanced;
use crate::scan::stack_view;
use crate::scan::step;

verus! {

pub open spec fn n_gpx() -> Seq<u8> {
    seq![B_G, B_P, B_X]
}

pub open spec fn n_trk() -> Seq<u8> {
    seq![B_T, B_R, B_K]
}

pub open spec fn n_trkseg() -> Seq<u8> {
    seq![B_T, B_R, B_K, B_S, B_E, B_G]
}

pub open spec fn n_trkpt() -> Seq<u8> {
    seq![B_T, B_R, B_K, B_P, B_T]
}

pub open spec fn n_ele() -> Seq<u8> {
    seq![B_E, B_L, B_E]
}

pub open spec fn n_time() -> Seq<u8> {
    seq![B_T, B_I, B_M, B_E]
}

pub open spec fn n_name() -> Seq<u8> {
    seq![B_N, B_A, B_M, B_E]
}

pub open spec fn n_metadata() -> Seq<u8> {
    seq![B_M, B_E, B_T, B_A, B_D, B_A, B_T, B_A]
}

pub open spec fn n_lat() -> Seq<u8> {
    seq![B_L, B_A, B_T]
}

pub open spec fn n_lon() -> Seq<u8> {
    seq![B_L, B_O, B_N]
}

/// View of a scanned point list.
pub open spec fn raw_pts_view(v: Seq<RawPoint>) -> Seq<SpecRawPoint> {
    v.map_values(|p: RawPoint| p@)
}

/// View of a scanned segment list.
pub open spec fn raw_segs_view(v: Seq<Vec<RawPoint>>) -> Seq<Seq<SpecRawPoint>> {
    v.map_values(|sv: Vec<RawPoint>| raw_pts_view(sv@))
}

/// View of a scanned track list.
pub open spec fn raw_trks_view(v: Seq<RawTrack>) -> Seq<SpecRawTrack> {
    v.map_values(|t: RawTrack| t@)
}

/// Content of a `trkpt` element from `i` to its end tag: the raw text of its
/// `ele` and `time` children (the last occurrence wins), other children
/// skipped, and the position after `</trkpt>`.
pub open spec fn spec_pt_content(
    s: Seq<u8>,
    i: int,
    ele: Option<Seq<u8>>,
    time: Option<Seq<u8>>,
) -> Option<(Option<Seq<u8>>, Option<Seq<u8>>, int)>
    decreases s.len() - i,
{
    if !(0 <= i < s.len()) {
        None
    } else if s[i] == B_LT {
        if i + 1 < s.len() && s[i + 1] == B_SLASH {
            match spec_close_tag(s, i) {
                Some((nm, j)) => if nm == n_trkpt() {
                    Some((ele, time, j))
                } else {
                    None
                },
                None => None,
            }
        } else if comment_at(s, i) {
            match comment_end(s, i + 4) {
                Some(j) => spec_pt_content(s, step(s, i, j), ele, time),
                None => None,
            }
        } else {
            match spec_open_tag(s, i) {
                Some((nm, attrs, j, sc)) => if nm == n_ele() {
                    if sc {
                        spec_pt_content(s, step(s, i, j), Some(Seq::empty()), time)
                    } else {
                        match spec_leaf_text(s, j, n_ele(), Seq::empty()) {
                            Some((txt, k)) => spec_pt_content(s, step(s, i, k), Some(txt), time),
                            None => None,
                        }
                    }
                } else if nm == n_time() {
                    if sc {
                        spec_pt_content(s, step(s, i, j), ele, Some(Seq::empty()))
                    } else {
                        match spec_leaf_text(s, j, n_time(), Seq::empty()) {
                            Some((txt, k)) => spec_pt_content(s, step(s, i, k), ele, Some(txt)),
                            None => None,
                        }
                    }
                } else {
                    if sc {
                        spec_pt_content(s, step(s, i, j), ele, time)
                    } else {
                        match spec_skip_balanced(s, j, seq![nm]) {
                            Some(k) => spec_pt_content(s, step(s, i, k), ele, time),
                            None => None,
                        }
                    }
                },
                None => None,
            }
        }
    } else {
        spec_pt_content(s, i + 1, ele, time)
    }
}

/// Content of a `trkseg` element from `i`: its `trkpt` children appended to
/// `pts`, and the position after `</trkseg>`.
pub open spec fn spec_seg_content(s: Seq<u8>, i: int, pts: Seq<SpecRawPoint>) -> Option<
    (Seq<SpecRawPoint>, int),
>
    decreases s.len() - i,
{
    if !(0 <= i < s.len()) {
        None
    } else if s[i] == B_LT {
        if i + 1 < s.len() && s[i + 1] == B_SLASH {
            match spec_close_tag(s, i) {
                Some((nm, j)) => if nm == n_trkseg() {
                    Some((pts, j))
                } else {
                    None
                },
                None => None,
            }
        } else if comment_at(s, i) {
            match comment_end(s, i + 4) {
                Some(j) => spec_seg_content(s, step(s, i, j), pts),
                None => None,
            }
        } else {
            match spec_open_tag(s, i) {
                Some((nm, attrs, j, sc)) => if nm == n_trkpt() {
                    let lat = attr_val(attrs, n_lat());
                    let lon = attr_val(attrs, n_lon());
                    if sc {
                        spec_seg_content(
                            s,
                            step(s, i, j),
                            pts.push(SpecRawPoint { lat, lon, ele: None, time: None }),
                        )
                    } else {
                        match spec_pt_content(s, j, None, None) {
                            Some((ele, time, k)) => spec_seg_content(
                                s,
                                step(s, i, k),
                                pts.push(SpecRawPoint { lat, lon, ele, time }),
                            ),
                            None => None,
                        }
                    }
                } else {
                    if sc {
                        spec_seg_content(s, step(s, i, j), pts)
                    } else {
                        match spec_skip_balanced(s, j, seq![nm]) {
                            Some(k) => spec_seg_content(s, step(s, i, k), pts),
                            None => None,
                        }
                    }
                },
                None => None,
            }
        }
    } else {
        spec_seg_content(s, i + 1, pts)
    }
}

/// Content of a `metadata` element from `i`: the raw text of its `name` and
/// `time` children, and the position after `</metadata>`.
pub open spec fn spec_meta_content(
    s: Seq<u8>,
    i: int,
    name: Option<Seq<u8>>,
    time: Option<Seq<u8>>,
) -> Option<(Option<Seq<u8>>, Option<Seq<u8>>, int)>
    decreases s.len() - i,
{
    if !(0 <= i < s.len()) {
        None
    } else if s[i] == B_LT {
        if i + 1 < s.len() && s[i + 1] == B_SLASH {
            match spec_close_tag(s, i) {
                Some((nm, j)) => if nm == n_metadata() {
                    Some((name, time, j))
                } else {
                    None
                },
                None => None,
            }
        } else if comment_at(s, i) {
            match comment_end(s, i + 4) {
                Some(j) => spec_meta_content(s, step(s, i, j), name, time),
                None => None,
            }
        } else {
            match spec_open_tag(s, i) {
                Some((nm, attrs, j, sc)) => if nm == n_name() {
                    if sc {
                        spec_meta_content(s, step(s, i, j), Some(Seq::empty()), time)
                    } else {
                        match spec_leaf_text(s, j, n_name(), Seq::empty()) {
                            Some((txt, k)) => spec_meta_content(s, step(s, i, k), Some(txt), time),
                            None => None,
                        }
                    }
                } else if nm == n_time() {
                    if sc {
                        spec_meta_content(s, step(s, i, j), name, Some(Seq::empty()))
                    } else {
                        match spec_leaf_text(s, j, n_time(), Seq::empty()) {
                            Some((txt, k)) => spec_meta_content(s, step(s, i, k), name, Some(txt)),
                            None => None,
                        }
                    }
                } else {
                    if sc {
                        spec_meta_content(s, step(s, i, j), name, time)
                    } else {
                        match spec_skip_balanced(s, j, seq![nm]) {
                            Some(k) => spec_meta_content(s, step(s, i, k), name, time),
                            None => None,
                        }
                    }
                },
                None => None,
            }
        }
    } else {
        spec_meta_content(s, i + 1, name, time)
    }
}

/// Content of a `trk` element from `i`: its optional `name` text and its
/// `trkseg` children, and the position after `</trk>`.
pub open spec fn spec_trk_content(
    s: Seq<u8>,
    i: int,
    name: Option<Seq<u8>>,
    segs: Seq<Seq<SpecRawPoint>>,
) -> Option<(Option<Seq<u8>>, Seq<Seq<SpecRawPoint>>, int)>
    decreases s.len() - i,
{
    if !(0 <= i < s.len()) {
        None
    } else if s[i] == B_LT {
        if i + 1 < s.len() && s[i + 1] == B_SLASH {
            match spec_close_tag(s, i) {
                Some((nm, j)) => if nm == n_trk() {
                    Some((name, segs, j))
                } else {
                    None
                },
                None => None,
            }
        } else if comment_at(s, i) {
            match comment_end(s, i + 4) {
                Some(j) => spec_trk_content(s, step(s, i, j), name, segs),
                None => None,
            }
        } else {
            match spec_open_tag(s, i) {
                Some((nm, attrs, j, sc)) => if nm == n_name() {
                    if sc {
                        spec_trk_content(s, step(s, i, j), Some(Seq::empty()), segs)
                    } else {
                        match spec_leaf_text(s, j, n_name(), Seq::empty()) {
                            Some((txt, k)) => spec_trk_content(s, step(s, i, k), Some(txt), segs),
                            None => None,
                        }
                    }
                } else if nm == n_trkseg() {
                    if sc {
                        spec_trk_content(s, step(s, i, j), name, segs.push(Seq::empty()))
                    } else {
                        match spec_seg_content(s, j, Seq::empty()) {
                            Some((pts, k)) => spec_trk_content(
                                s,
                                step(s, i, k),
                                name,
                                segs.push(pts),
                            ),
                            None => None,
                        }
                    }
                } else {
                    if sc {
                        spec_trk_content(s, step(s, i, j), name, segs)
                    } else {
                        match spec_skip_balanced(s, j, seq![nm]) {
                            Some(k) => spec_trk_content(s, step(s, i, k), name, segs),
                            None => None,
                        }
                    }
                },
                None => None,
            }
        }
    } else {
        spec_trk_content(s, i + 1, name, segs)
    }
}

/// Content of the `gpx` root from `i`: document metadata and the tracks in
/// order, and the position after `</gpx>`.
pub open spec fn spec_gpx_content(
    s: Seq<u8>,
    i: int,
    mname: Option<Seq<u8>>,
    mtime: Option<Seq<u8>>,
    tracks: Seq<SpecRawTrack>,
) -> Option<(Option<Seq<u8>>, Option<Seq<u8>>, Seq<SpecRawTrack>, int)>
    decreases s.len() - i,
{
    if !(0 <= i < s.len()) {
        None
    } else if s[i] == B_LT {
        if i + 1 < s.len() && s[i + 1] == B_SLASH {
            match spec_close_tag(s, i) {
                Some((nm, j)) => if nm == n_gpx() {
                    Some((mname, mtime, tracks, j))
                } else {
                    None
                },
                None => None,
            }
        } else if comment_at(s, i) {
            match comment_end(s, i + 4) {
                Some(j) => spec_gpx_content(s, step(s, i, j), mname, mtime, tracks),
                None => None,
            }
        } else {
            match spec_open_tag(s, i) {
                Some((nm, attrs, j, sc)) => if nm == n_metadata() {
                    if sc {
                        spec_gpx_content(s, step(s, i, j), mname, mtime, tracks)
                    } else {
                        match spec_meta_content(s, j, None, None) {
                            Some((nm2, tm2, k)) => spec_gpx_content(
                                s,
                                step(s, i, k),
                                nm2,
                                tm2,
                                tracks,
                            ),
                            None => None,
                        }
                    }
                } else if nm == n_trk() {
                    if sc {
                        spec_gpx_content(
                            s,
                            step(s, i, j),
                            mname,
                            mtime,
                            tracks.push(SpecRawTrack { name: None, segments: Seq::empty() }),
                        )
                    } else {
                        match spec_trk_content(s, j, None, Seq::empty()) {
                            Some((tname, segs, k)) => spec_gpx_content(
                                s,
                                step(s, i, k),
                                mname,
                                mtime,
                                tracks.push(SpecRawTrack { name: tname, segments: segs }),
                            ),
                            None => None,
                        }
                    }
                } else {
                    if sc {
                        spec_gpx_content(s, step(s, i, j), mname, mtime, tracks)
                    } else {
                        match spec_skip_balanced(s, j, seq![nm]) {
                            Some(k) => spec_gpx_content(s, step(s, i, k), mname, mtime, tracks),
                            None => None,
                        }
                    }
                },
                None => None,
            }
        }
    } else {
        spec_gpx_content(s, i + 1, mname, mtime, tracks)
    }
}

/// The structural pass over a whole payload: an optional prolog, a `gpx`
/// root element, optional trailing whitespace and comments, and nothing
/// else.
pub open spec fn spec_document(s: Seq<u8>) -> Option<SpecRawDocument> {
    let i = misc_end(s, 0);
    match spec_open_tag(s, i) {
        Some((nm, attrs, j, sc)) => if nm == n_gpx() {
            if sc {
                if misc_end(s, j) == s.len() {
                    Some(SpecRawDocument { name: None, time: None, tracks: Seq::empty() })
                } else {
                    None
                }
            } else {
                match spec_gpx_content(s, j, None, None, Seq::empty()) {
                    Some((mname, mtime, tracks, k)) => if misc_end(s, k) == s.len() {
                        Some(SpecRawDocument { name: mname, time: mtime, tracks })
                    } else {
                        None
                    },
                    None => None,
                }
            }
        } else {
            None
        },
        None => None,
    }
}

/// Reads `trkpt` content, deciding `spec_pt_content`.
#[verifier::loop_isolation(false)]
pub fn pt_content_x(s: &[u8], i: usize) -> (r: Option<(Option<Vec<u8>>, Option<Vec<u8>>, usize)>)
    requires
        i <= s@.len(),
    ensures
        match r {
            Some(t) => spec_pt_content(s@, i as int, None, None) == Some(
                (view_bytes_opt(t.0), view_bytes_opt(t.1), t.2 as int),
            ) && i < t.2 <= s@.len(),
            None => spec_pt_content(s@, i as int, None, None) is None,
        },
{
    let n = s.len();
    let mut ele: Option<Vec<u8>> = None;
    let mut time: Option<Vec<u8>> = None;
    let mut pos: usize = i;
    loop
        invariant
            i <= pos <= n,
            spec_pt_content(s@, i as int, None, None) == spec_pt_content(
                s@,
                pos as int,
                view_bytes_opt(ele),
                view_bytes_opt(time),
            ),
        decreases n - pos,
    {
        if pos >= n {
            return None;
        }
        if s[pos] == B_LT {
            if n - pos >= 2 && s[pos + 1] == B_SLASH {
                match close_tag_x(s, pos) {
                    Some((ns, ne, end)) => {
                        if range_is5(s, ns, ne, B_T, B_R, B_K, B_P, B_T) {
                            return Some((ele, time, end));
                        } else {
                            return None;
                        }
                    },
                    None => {
                        return None;
                    },
                }
            } else if n - pos >= 4 && s[pos + 1] == B_BANG && s[pos + 2] == B_MINUS && s[pos + 3]
                == B_MINUS {
                match comment_end_x(s, pos + 4) {
                    Some(k) => {
                        pos = k;
                    },
                    None => {
                        return None;
                    },
                }
            } else {
                match open_tag_x(s, pos) {
                    Some((ns, ne, _av, end, sc)) => {
                        if range_is3(s, ns, ne, B_E, B_L, B_E) {
                            if sc {
                                let empty_text: Vec<u8> = Vec::new();
                                proof {
                                    assert(empty_text@ =~= Seq::<u8>::empty());
                                }
                                ele = Some(empty_text);
                                pos = end;
                            } else {
                                match leaf_text_x(s, end, ns, ne) {
                                    Some((txt, k)) => {
                                        ele = Some(txt);
                                        pos = k;
                                    },
                                    None => {
                                        return None;
                                    },
                                }
                            }
                        } else if range_is4(s, ns, ne, B_T, B_I, B_M, B_E) {
                            if sc {
                                let empty_text: Vec<u8> = Vec::new();
                                proof {
                                    assert(empty_text@ =~= Seq::<u8>::empty());
                                }
                                time = Some(empty_text);
                                pos = end;
                            } else {
                                match leaf_text_x(s, end, ns, ne) {
                                    Some((txt, k)) => {
                                        time = Some(txt);
                                        pos = k;
                                    },
                                    None => {
                                        return None;
                                    },
                                }
                            }
                        } else {
                            if sc {
                                pos = end;
                            } else {
                                let mut st: Vec<(usize, usize)> = Vec::new();
                                st.push((ns, ne));
                                proof {
                                    assert(stack_view(s@, st@) =~= seq![
                                        s@.subrange(ns as int, ne as int),
                                    ]);
                                }
                                match skip_balanced_x(s, end, st) {
                                    Some(k) => {
                                        pos = k;
                                    },
                                    None => {
                                        return None;
                                    },
                                }
                            }
                        }
                    },
                    None => {
                        return None;
                    },
                }
            }
        } else {
            pos = pos + 1;
        }
    }
}

/// Reads `trkseg` content, deciding `spec_seg_content`.
#[verifier::loop_isolation(false)]
pub fn seg_content_x(s: &[u8], i: usize) -> (r: Option<(Vec<RawPoint>, usize)>)
    requires
        i <= s@.len(),
    ensures
        match r {
            Some(t) => spec_seg_content(s@, i as int, Seq::empty()) == Some(
                (raw_pts_view(t.0@), t.1 as int),
            ) && i < t.1 <= s@.len(),
            None => spec_seg_content(s@, i as int, Seq::empty()) is None,
        },
{
    let n = s.len();
    let mut pts: Vec<RawPoint> = Vec::new();
    let mut pos: usize = i;
    proof {
        assert(raw_pts_view(pts@) =~= Seq::<SpecRawPoint>::empty());
    }
    loop
        invariant
            i <= pos <= n,
            spec_seg_content(s@, i as int, Seq::empty()) == spec_seg_content(
                s@,
                pos as int,
                raw_pts_view(pts@),
            ),
        decreases n - pos,
    {
        if pos >= n {
            return None;
        }
        if s[pos] == B_LT {
            if n - pos >= 2 && s[pos + 1] == B_SLASH {
                match close_tag_x(s, pos) {
                    Some((ns, ne, end)) => {
                        if range_is6(s, ns, ne, B_T, B_R, B_K, B_S, B_E, B_G) {
                            return Some((pts, end));
                        } else {
                            return None;
                        }
                    },
                    None => {
                        return None;
                    },
                }
            } else if n - pos >= 4 && s[pos + 1] == B_BANG && s[pos + 2] == B_MINUS && s[pos + 3]
                == B_MINUS {
                match comment_end_x(s, pos + 4) {
                    Some(k) => {
                        pos = k;
                    },
                    None => {
                        return None;
                    },
                }
            } else {
                match open_tag_x(s, pos) {
                    Some((ns, ne, av, end, sc)) => {
                        if range_is5(s, ns, ne, B_T, B_R, B_K, B_P, B_T) {
                            let lat = attr_lookup3(&av, B_L, B_A, B_T);
                            let lon = attr_lookup3(&av, B_L, B_O, B_N);
                            if sc {
                                let rp = RawPoint { lat, lon, ele: None, time: None };
                                proof {
                                    assert(raw_pts_view(pts@.push(rp)) =~= raw_pts_view(pts@).push(
                                        rp@,
                                    ));
                                }
                                pts.push(rp);
                                pos = end;
                            } else {
                                match pt_content_x(s, end) {
                                    Some((pe, pt, k)) => {
                                        let rp = RawPoint { lat, lon, ele: pe, time: pt };
                                        proof {
                                            assert(raw_pts_view(pts@.push(rp)) =~= raw_pts_view(
                                                pts@,
                                            ).push(rp@));
                                        }
                                        pts.push(rp);
                                        pos = k;
                                    },
                                    None => {
                                        return None;
                                    },
                                }
                            }
                        } else {
                            if sc {
                                pos = end;
                            } else {
                                let mut st: Vec<(usize, usize)> = Vec::new();
                                st.push((ns, ne));
                                proof {
                                    assert(stack_view(s@, st@) =~= seq![
                                        s@.subrange(ns as int, ne as int),
                                    ]);
                                }
                                match skip_balanced_x(s, end, st) {
                                    Some(k) => {
                                        pos = k;
                                    },
                                    None => {
                                        return None;
                                    },
                                }
                            }
                        }
                    },
                    None => {
                        return None;
                    },
                }
            }
        } else {
            pos = pos + 1;
        }
    }
}

/// Reads `metadata` content, deciding `spec_meta_content`.
#[verifier::loop_isolation(false)]
pub fn meta_content_x(s: &[u8], i: usize) -> (r: Option<
    (Option<Vec<u8>>, Option<Vec<u8>>, usize),
>)
    requires
        i <= s@.len(),
    ensures
        match r {
            Some(t) => spec_meta_content(s@, i as int, None, None) == Some(
                (view_bytes_opt(t.0), view_bytes_opt(t.1), t.2 as int),
            ) && i < t.2 <= s@.len(),
            None => spec_meta_content(s@, i as int, None, None) is None,
        },
{
    let n = s.len();
    let mut name: Option<Vec<u8>> = None;
    let mut time: Option<Vec<u8>> = None;
    let mut pos: usize = i;
    loop
        invariant
            i <= pos <= n,
            spec_meta_content(s@, i as int, None, None) == spec_meta_content(
                s@,
                pos as int,
                view_bytes_opt(name),
                view_bytes_opt(time),
            ),
        decreases n - pos,
    {
        if pos >= n {
            return None;
        }
        if s[pos] == B_LT {
            if n - pos >= 2 && s[pos + 1] == B_SLASH {
                match close_tag_x(s, pos) {
                    Some((ns, ne, end)) => {
                        if range_is8(s, ns, ne, B_M, B_E, B_T, B_A, B_D, B_A, B_T, B_A) {
                            return Some((name, time, end));
                        } else {
                            return None;
                        }
                    },
                    None => {
                        return None;
                    },
                }
            } else if n - pos >= 4 && s[pos + 1] == B_BANG && s[pos + 2] == B_MINUS && s[pos + 3]
                == B_MINUS {
                match comment_end_x(s, pos + 4) {
                    Some(k) => {
                        pos = k;
                    },
                    None => {
                        return None;
                    },
                }
            } else {
                match open_tag_x(s, pos) {
                    Some((ns, ne, _av, end, sc)) => {
                        if range_is4(s, ns, ne, B_N, B_A, B_M, B_E) {
                            if sc {
                                let empty_text: Vec<u8> = Vec::new();
                                proof {
                                    assert(empty_text@ =~= Seq::<u8>::empty());
                                }
                                name = Some(empty_text);
                                pos = end;
                            } else {
                                match leaf_text_x(s, end, ns, ne) {
                                    Some((txt, k)) => {
                                        name = Some(txt);
                                        pos = k;
                                    },
                                    None => {
                                        return None;
                                    },
                                }
                            }
                        } else if range_is4(s, ns, ne, B_T, B_I, B_M, B_E) {
                            if sc {
                                let empty_text: Vec<u8> = Vec::new();
                                proof {
                                    assert(empty_text@ =~= Seq::<u8>::empty());
                                }
                                time = Some(empty_text);
                                pos = end;
                            } else {
                                match leaf_text_x(s, end, ns, ne) {
                                    Some((txt, k)) => {
                                        time = Some(txt);
                                        pos = k;
                                    },
                                    None => {
                                        return None;
                                    },
                                }
                            }
                        } else {
                            if sc {
                                pos = end;
                            } else {
                                let mut st: Vec<(usize, usize)> = Vec::new();
                                st.push((ns, ne));
                                proof {
                                    assert(stack_view(s@, st@) =~= seq![
                                        s@.subrange(ns as int, ne as int),
                                    ]);
                                }
                                match skip_balanced_x(s, end, st) {
                                    Some(k) => {
                                        pos = k;
                                    },
                                    None => {
                                        return None;
                                    },
                                }
                            }
                        }
                    },
                    None => {
                        return None;
                    },
                }
            }
        } else {
            pos = pos + 1;
        }
    }
}

/// Reads `trk` content, deciding `spec_trk_content`.
#[verifier::loop_isolation(false)]
pub fn trk_content_x(s: &[u8], i: usize) -> (r: Option<
    (Option<Vec<u8>>, Vec<Vec<RawPoint>>, usize),
>)
    requires
        i <= s@.len(),
    ensures
        match r {
            Some(t) => spec_trk_content(s@, i as int, None, Seq::empty()) == Some(
                (view_bytes_opt(t.0), raw_segs_view(t.1@), t.2 as int),
            ) && i < t.2 <= s@.len(),
            None => spec_trk_content(s@, i as int, None, Seq::empty()) is None,
        },
{
    let n = s.len();
    let mut name: Option<Vec<u8>> = None;
    let mut segs: Vec<Vec<RawPoint>> = Vec::new();
    let mut pos: usize = i;
    proof {
        assert(raw_segs_view(segs@) =~= Seq::<Seq<SpecRawPoint>>::empty());
    }
    loop
        invariant
            i <= pos <= n,
            spec_trk_content(s@, i as int, None, Seq::empty()) == spec_trk_content(
                s@,
                pos as int,
                view_bytes_opt(name),
                raw_segs_view(segs@),
            ),
        decreases n - pos,
    {
        if pos >= n {
            return None;
        }
        if s[pos] == B_LT {
            if n - pos >= 2 && s[pos + 1] == B_SLASH {
                match close_tag_x(s, pos) {
                    Some((ns, ne, end)) => {
                        if range_is3(s, ns, ne, B_T, B_R, B_K) {
                            return Some((name, segs, end));
                        } else {
                            return None;
                        }
                    },
                    None => {
                        return None;
                    },
                }
            } else if n - pos >= 4 && s[pos + 1] == B_BANG && s[pos + 2] == B_MINUS && s[pos + 3]
                == B_MINUS {
                match comment_end_x(s, pos + 4) {
                    Some(k) => {
                        pos = k;
                    },
                    None => {
                        return None;
                    },
                }
            } else {
                match open_tag_x(s, pos) {
                    Some((ns, ne, _av, end, sc)) => {
                        if range_is4(s, ns, ne, B_N, B_A, B_M, B_E) {
                            if sc {
                                let empty_text: Vec<u8> = Vec::new();
                                proof {
                                    assert(empty_text@ =~= Seq::<u8>::empty());
                                }
                                name = Some(empty_text);
                                pos = end;
                            } else {
                                match leaf_text_x(s, end, ns, ne) {
                                    Some((txt, k)) => {
                                        name = Some(txt);
                                        pos = k;
                                    },
                                    None => {
                                        return None;
                                    },
                                }
                            }
                        } else if range_is6(s, ns, ne, B_T, B_R, B_K, B_S, B_E, B_G) {
                            if sc {
                                let empty_seg: Vec<RawPoint> = Vec::new();
                                proof {
                                    assert(raw_pts_view(empty_seg@) =~= Seq::<SpecRawPoint>::empty());
                                    assert(raw_segs_view(segs@.push(empty_seg)) =~= raw_segs_view(
                                        segs@,
                                    ).push(Seq::empty()));
                                }
                                segs.push(empty_seg);
                                pos = end;
                            } else {
                                match seg_content_x(s, end) {
                                    Some((pts, k)) => {
                                        proof {
                                            assert(raw_segs_view(segs@.push(pts)) =~= raw_segs_view(
                                                segs@,
                                            ).push(raw_pts_view(pts@)));
                                        }
                                        segs.push(pts);
                                        pos = k;
                                    },
                                    None => {
                                        return None;
                                    },
                                }
                            }
                        } else {
                            if sc {
                                pos = end;
                            } else {
                                let mut st: Vec<(usize, usize)> = Vec::new();
                                st.push((ns, ne));
                                proof {
                                    assert(stack_view(s@, st@) =~= seq![
                                        s@.subrange(ns as int, ne as int),
                                    ]);
                                }
                                match skip_balanced_x(s, end, st) {
                                    Some(k) => {
                                        pos = k;
                                    },
                                    None => {
                                        return None;
                                    },
                                }
                            }
                        }
                    },
                    None => {
                        return None;
                    },
                }
            }
        } else {
            pos = pos + 1;
        }
    }
}

/// Reads `gpx` content, deciding `spec_gpx_content`.
#[verifier::loop_isolation(false)]
pub fn gpx_content_x(s: &[u8], i: usize) -> (r: Option<
    (Option<Vec<u8>>, Option<Vec<u8>>, Vec<RawTrack>, usize),
>)
    requires
        i <= s@.len(),
    ensures
        match r {
            Some(t) => spec_gpx_content(s@, i as int, None, None, Seq::empty()) == Some(
                (view_bytes_opt(t.0), view_bytes_opt(t.1), raw_trks_view(t.2@), t.3 as int),
            ) && i < t.3 <= s@.len(),
            None => spec_gpx_content(s@, i as int, None, None, Seq::empty()) is None,
        },
{
    let n = s.len();
    let mut mname: Option<Vec<u8>> = None;
    let mut mtime: Option<Vec<u8>> = None;
    let mut tracks: Vec<RawTrack> = Vec::new();
    let mut pos: usize = i;
    proof {
        assert(raw_trks_view(tracks@) =~= Seq::<SpecRawTrack>::empty());
    }
    loop
        invariant
            i <= pos <= n,
            spec_gpx_content(s@, i as int, None, None, Seq::empty()) == spec_gpx_content(
                s@,
                pos as int,
                view_bytes_opt(mname),
                view_bytes_opt(mtime),
                raw_trks_view(tracks@),
            ),
        decreases n - pos,
    {
        if pos >= n {
            return None;
        }
        if s[pos] == B_LT {
            if n - pos >= 2 && s[pos + 1] == B_SLASH {
                match close_tag_x(s, pos) {
                    Some((ns, ne, end)) => {
                        if range_is3(s, ns, ne, B_G, B_P, B_X) {
                            return Some((mname, mtime, tracks, end));
                        } else {
                            return None;
                        }
                    },
                    None => {
                        return None;
                    },
                }
            } else if n - pos >= 4 && s[pos + 1] == B_BANG && s[pos + 2] == B_MINUS && s[pos + 3]
                == B_MINUS {
                match comment_end_x(s, pos + 4) {
                    Some(k) => {
                        pos = k;
                    },
                    None => {
                        return None;
                    },
                }
            } else {
                match open_tag_x(s, pos) {
                    Some((ns, ne, _av, end, sc)) => {
                        if range_is8(s, ns, ne, B_M, B_E, B_T, B_A, B_D, B_A, B_T, B_A) {
                            if sc {
                                pos = end;
                            } else {
                                match meta_content_x(s, end) {
                                    Some((nm2, tm2, k)) => {
                                        mname = nm2;
                                        mtime = tm2;
                                        pos = k;
                                    },
                                    None => {
                                        return None;
                                    },
                                }
                            }
                        } else if range_is3(s, ns, ne, B_T, B_R, B_K) {
                            if sc {
                                let rt = RawTrack { name: None, segments: Vec::new() };
                                proof {
                                    assert(rt@.segments =~= Seq::<Seq<SpecRawPoint>>::empty());
                                    assert(rt@ == SpecRawTrack {
                                        name: None,
                                        segments: Seq::empty(),
                                    });
                                    assert(raw_trks_view(tracks@.push(rt)) =~= raw_trks_view(
                                        tracks@,
                                    ).push(rt@));
                                }
                                tracks.push(rt);
                                pos = end;
                            } else {
                                match trk_content_x(s, end) {
                                    Some((tname, tsegs, k)) => {
                                        let rt = RawTrack { name: tname, segments: tsegs };
                                        proof {
                                            assert(rt@.segments =~~= raw_segs_view(rt.segments@));
                                            assert(raw_trks_view(tracks@.push(rt))
                                                =~= raw_trks_view(tracks@).push(rt@));
                                        }
                                        tracks.push(rt);
                                        pos = k;
                                    },
                                    None => {
                                        return None;
                                    },
                                }
                            }
                        } else {
                            if sc {
                                pos = end;
                            } else {
                                let mut st: Vec<(usize, usize)> = Vec::new();
                                st.push((ns, ne));
                                proof {
                                    assert(stack_view(s@, st@) =~= seq![
                                        s@.subrange(ns as int, ne as int),
                                    ]);
                                }
                                match skip_balanced_x(s, end, st) {
                                    Some(k) => {
                                        pos = k;
                                    },
                                    None => {
                                        return None;
                                    },
                                }
                            }
                        }
                    },
                    None => {
                        return None;
                    },
                }
            }
        } else {
            pos = pos + 1;
        }
    }
}

/// Runs the structural pass over a whole payload, deciding `spec_document`.
pub fn document_x(s: &[u8]) -> (r: Option<RawDocument>)
    ensures
        match r {
            Some(d) => spec_document(s@) == Some(d@),
            None => spec_document(s@) is None,
        },
{
    let n = s.len();
    let i = misc_end_x(s, 0);
    match open_tag_x(s, i) {
        Some((ns, ne, _av, j, sc)) => {
            if range_is3(s, ns, ne, B_G, B_P, B_X) {
                if sc {
                    let k = misc_end_x(s, j);
                    if k == n {
                        let d = RawDocument { name: None, time: None, tracks: Vec::new() };
                        proof {
                            assert(d@.tracks =~= Seq::<SpecRawTrack>::empty());
                            assert(d@ == SpecRawDocument {
                                name: None,
                                time: None,
                                tracks: Seq::empty(),
                            });
                        }
                        Some(d)
                    } else {
                        None
                    }
                } else {
                    match gpx_content_x(s, j) {
                        Some((mname, mtime, tracks, k)) => {
                            let k2 = misc_end_x(s, k);
                            if k2 == n {
                                let ghost mv = view_bytes_opt(mname);
                                let ghost tv = view_bytes_opt(mtime);
                                let ghost trv = raw_trks_view(tracks@);
                                let d = RawDocument { name: mname, time: mtime, tracks };
                                proof {
                                    assert(d@.tracks =~~= trv);
                                    assert(d@ == SpecRawDocument { name: mv, time: tv, tracks: trv });
                                }
                                Some(d)
                            } else {
                                None
                            }
                        },
                        None => None,
                    }
                }
            } else {
                None
            }
        },
        None => None,
    }
}

} // verus!
