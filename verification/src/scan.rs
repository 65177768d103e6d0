//! Lexical layer of the GPX reader: whitespace, names, comments, processing
//! instructions, attribute lists, start and end tags, and balanced skipping
//! of whole elements.
//!
//! Every `spec_*` function is the defining statement of the accepted syntax;
//! each executable function decides its spec counterpart exactly. Positions
//! are byte offsets; a spec function that scans returns the position after
//! what it consumed, and `None` where the input does not fit.

use vstd::prelude::*;

use crate::chars::B_BANG;
use crate::chars::B_CR;
use crate::chars::B_COLON;
use crate::chars::B_DOT;
use crate::chars::B_DQ;
use crate::chars::B_EQ;
use crate::chars::B_GT;
use crate::chars::B_LF;
use crate::chars::B_LT;
use crate::chars::B_MINUS;
use crate::chars::B_QUESTION;
use crate::chars::B_SLASH;
use crate::chars::B_SP;
use crate::chars::B_SQ;
use crate::chars::B_TAB;
use crate::chars::B_UNDER;
use crate::chars::B_UP_A;
use crate::chars::B_UP_Z;
use crate::chars::B_A;
use crate::chars::B_Z;
use crate::chars::B_0;
use crate::chars::B_9;

verus! {

pub open spec fn is_ws(c: u8) -> bool {
    c == B_SP || c == B_TAB || c == B_CR || c == B_LF
}

pub open spec fn is_name_start(c: u8) -> bool {
    (B_A <= c <= B_Z) || (B_UP_A <= c <= B_UP_Z) || c == B_UNDER || c == B_COLON
}

pub open spec fn is_name_char(c: u8) -> bool {
    is_name_start(c) || (B_0 <= c <= B_9) || c == B_MINUS || c == B_DOT
}

/// Clamp of a scanned-to position, used for the termination measure of the
/// recursive scanners: in a well-bounded scan `j` already lies in
/// `(i, s.len()]` and `step` is just `j`.
pub open spec fn step(s: Seq<u8>, i: int, j: int) -> int {
    if i + 1 <= j <= s.len() {
        j
    } else {
        s.len() as int
    }
}

/// First position at or after `i` that holds no whitespace (clamped to the
/// end).
pub open spec fn skip_ws(s: Seq<u8>, i: int) -> int
    decreases s.len() - i,
{
    if 0 <= i < s.len() && is_ws(s[i]) {
        skip_ws(s, i + 1)
    } else {
        i
    }
}

/// First position at or after `i` that holds no name character.
pub open spec fn name_end(s: Seq<u8>, i: int) -> int
    decreases s.len() - i,
{
    if 0 <= i < s.len() && is_name_char(s[i]) {
        name_end(s, i + 1)
    } else {
        i
    }
}

/// Position after the first `-->` at or after `i`.
pub open spec fn comment_end(s: Seq<u8>, i: int) -> Option<int>
    decreases s.len() - i,
{
    if 0 <= i && i + 3 <= s.len() {
        if s[i] == B_MINUS && s[i + 1] == B_MINUS && s[i + 2] == B_GT {
            Some(i + 3)
        } else {
            comment_end(s, i + 1)
        }
    } else {
        None
    }
}

/// Position after the first `?>` at or after `i`.
pub open spec fn pi_end(s: Seq<u8>, i: int) -> Option<int>
    decreases s.len() - i,
{
    if 0 <= i && i + 2 <= s.len() {
        if s[i] == B_QUESTION && s[i + 1] == B_GT {
            Some(i + 2)
        } else {
            pi_end(s, i + 1)
        }
    } else {
        None
    }
}

/// Position of the first occurrence of the quote byte `q` at or after `i`.
pub open spec fn quote_end(s: Seq<u8>, i: int, q: u8) -> Option<int>
    decreases s.len() - i,
{
    if 0 <= i < s.len() {
        if s[i] == q {
            Some(i)
        } else {
            quote_end(s, i + 1, q)
        }
    } else {
        None
    }
}

/// A comment opens at `i`.
pub open spec fn comment_at(s: Seq<u8>, i: int) -> bool {
    0 <= i && i + 4 <= s.len() && s[i] == B_LT && s[i + 1] == B_BANG && s[i + 2] == B_MINUS && s[i
        + 3] == B_MINUS
}

/// A processing instruction (or the XML declaration) opens at `i`.
pub open spec fn pi_at(s: Seq<u8>, i: int) -> bool {
    0 <= i && i + 2 <= s.len() && s[i] == B_LT && s[i + 1] == B_QUESTION
}

/// First position at or after `i` past all whitespace, comments and
/// processing instructions (stuck at an unterminated comment or instruction,
/// which a caller then rejects).
pub open spec fn misc_end(s: Seq<u8>, i: int) -> int
    decreases s.len() - i,
{
    if !(0 <= i < s.len()) {
        i
    } else if is_ws(s[i]) {
        misc_end(s, i + 1)
    } else if comment_at(s, i) {
        match comment_end(s, i + 4) {
            Some(j) => misc_end(s, step(s, i, j)),
            None => i,
        }
    } else if pi_at(s, i) {
        match pi_end(s, i + 2) {
            Some(j) => misc_end(s, step(s, i, j)),
            None => i,
        }
    } else {
        i
    }
}

/// The attribute list read from `i` (whitespace, then `name="value"` pairs),
/// appended to `acc`, and the position of the `>` or `/` that follows it.
pub open spec fn spec_attrs(s: Seq<u8>, i: int, acc: Seq<(Seq<u8>, Seq<u8>)>) -> Option<
    (Seq<(Seq<u8>, Seq<u8>)>, int),
>
    decreases s.len() - i,
{
    if !(0 <= i <= s.len()) {
        None
    } else {
        let j = skip_ws(s, i);
        if j < s.len() && (s[j] == B_GT || s[j] == B_SLASH) {
            Some((acc, j))
        } else if j < s.len() && is_name_start(s[j]) {
            let ne = name_end(s, j + 1);
            let k = skip_ws(s, ne);
            if k < s.len() && s[k] == B_EQ {
                let q = skip_ws(s, k + 1);
                if q < s.len() && (s[q] == B_DQ || s[q] == B_SQ) {
                    match quote_end(s, q + 1, s[q]) {
                        Some(ve) => spec_attrs(
                            s,
                            step(s, i, ve + 1),
                            acc.push((s.subrange(j, ne), s.subrange(q + 1, ve))),
                        ),
                        None => None,
                    }
                } else {
                    None
                }
            } else {
                None
            }
        } else {
            None
        }
    }
}

/// A start tag read at `i`: its name, its attributes, the position after its
/// `>` and whether it was self-closing (`/>`).
pub open spec fn spec_open_tag(s: Seq<u8>, i: int) -> Option<
    (Seq<u8>, Seq<(Seq<u8>, Seq<u8>)>, int, bool),
> {
    if 0 <= i && i + 1 < s.len() && s[i] == B_LT && is_name_start(s[i + 1]) {
        let ne = name_end(s, i + 2);
        match spec_attrs(s, ne, Seq::empty()) {
            Some((attrs, j)) => if s[j] == B_GT {
                Some((s.subrange(i + 1, ne), attrs, j + 1, false))
            } else if j + 1 < s.len() && s[j] == B_SLASH && s[j + 1] == B_GT {
                Some((s.subrange(i + 1, ne), attrs, j + 2, true))
            } else {
                None
            },
            None => None,
        }
    } else {
        None
    }
}

/// An end tag read at `i`: its name and the position after its `>`.
pub open spec fn spec_close_tag(s: Seq<u8>, i: int) -> Option<(Seq<u8>, int)> {
    if 0 <= i && i + 2 < s.len() && s[i] == B_LT && s[i + 1] == B_SLASH && is_name_start(s[i + 2]) {
        let ne = name_end(s, i + 3);
        let k = skip_ws(s, ne);
        if k < s.len() && s[k] == B_GT {
            Some((s.subrange(i + 2, ne), k + 1))
        } else {
            None
        }
    } else {
        None
    }
}

/// Consumes balanced element content from `i` until every element named on
/// `stack` (innermost last) has been closed, and returns the position after
/// the final end tag. Child elements of any name, text and comments are
/// consumed on the way.
pub open spec fn spec_skip_balanced(s: Seq<u8>, i: int, stack: Seq<Seq<u8>>) -> Option<int>
    decreases s.len() - i,
{
    if !(0 <= i < s.len()) || stack.len() == 0 {
        None
    } else if s[i] == B_LT {
        if i + 1 < s.len() && s[i + 1] == B_SLASH {
            match spec_close_tag(s, i) {
                Some((nm, j)) => if nm == stack.last() {
                    if stack.len() == 1 {
                        Some(j)
                    } else {
                        spec_skip_balanced(s, step(s, i, j), stack.drop_last())
                    }
                } else {
                    None
                },
                None => None,
            }
        } else if comment_at(s, i) {
            match comment_end(s, i + 4) {
                Some(j) => spec_skip_balanced(s, step(s, i, j), stack),
                None => None,
            }
        } else {
            match spec_open_tag(s, i) {
                Some((nm, attrs, j, sc)) => if sc {
                    spec_skip_balanced(s, step(s, i, j), stack)
                } else {
                    spec_skip_balanced(s, step(s, i, j), stack.push(nm))
                },
                None => None,
            }
        }
    } else {
        spec_skip_balanced(s, i + 1, stack)
    }
}

/// Text content of a leaf element named `name`, read from `i` (just after
/// the start tag) up to its end tag, appended to `acc`; comments inside the
/// text are dropped, child elements are not accepted.
pub open spec fn spec_leaf_text(s: Seq<u8>, i: int, name: Seq<u8>, acc: Seq<u8>) -> Option<
    (Seq<u8>, int),
>
    decreases s.len() - i,
{
    if !(0 <= i < s.len()) {
        None
    } else if s[i] == B_LT {
        if i + 1 < s.len() && s[i + 1] == B_SLASH {
            match spec_close_tag(s, i) {
                Some((nm, j)) => if nm == name {
                    Some((acc, j))
                } else {
                    None
                },
                None => None,
            }
        } else if comment_at(s, i) {
            match comment_end(s, i + 4) {
                Some(j) => spec_leaf_text(s, step(s, i, j), name, acc),
                None => None,
            }
        } else {
            None
        }
    } else {
        spec_leaf_text(s, i + 1, name, acc.push(s[i]))
    }
}

/// The value of the first attribute named `name` in `attrs` at or after
/// position `k`.
pub open spec fn attr_val_from(attrs: Seq<(Seq<u8>, Seq<u8>)>, name: Seq<u8>, k: int) -> Option<
    Seq<u8>,
>
    decreases attrs.len() - k,
{
    if !(0 <= k < attrs.len()) {
        None
    } else if attrs[k].0 == name {
        Some(attrs[k].1)
    } else {
        attr_val_from(attrs, name, k + 1)
    }
}

pub open spec fn attr_val(attrs: Seq<(Seq<u8>, Seq<u8>)>, name: Seq<u8>) -> Option<Seq<u8>> {
    attr_val_from(attrs, name, 0)
}

/// View of an attribute list a scanner built.
pub open spec fn attrs_view(av: Seq<(Vec<u8>, Vec<u8>)>) -> Seq<(Seq<u8>, Seq<u8>)> {
    av.map_values(|p: (Vec<u8>, Vec<u8>)| (p.0@, p.1@))
}

pub fn skip_ws_x(s: &[u8], i: usize) -> (r: usize)
    requires
        i <= s@.len(),
    ensures
        r as int == skip_ws(s@, i as int),
        i <= r <= s@.len(),
{
    let n = s.len();
    let mut j: usize = i;
    while j < n && (s[j] == B_SP || s[j] == B_TAB || s[j] == B_CR || s[j] == B_LF)
        invariant
            i <= j <= n,
            n == s@.len(),
            skip_ws(s@, i as int) == skip_ws(s@, j as int),
        decreases n - j,
    {
        j = j + 1;
    }
    j
}

pub fn name_end_x(s: &[u8], i: usize) -> (r: usize)
    requires
        i <= s@.len(),
    ensures
        r as int == name_end(s@, i as int),
        i <= r <= s@.len(),
{
    let n = s.len();
    let mut j: usize = i;
    while j < n && (
        (B_A <= s[j] && s[j] <= B_Z) || (B_UP_A <= s[j] && s[j] <= B_UP_Z) || s[j] == B_UNDER
        || s[j] == B_COLON || (B_0 <= s[j] && s[j] <= B_9) || s[j] == B_MINUS || s[j] == B_DOT)
        invariant
            i <= j <= n,
            n == s@.len(),
            name_end(s@, i as int) == name_end(s@, j as int),
        decreases n - j,
    {
        j = j + 1;
    }
    j
}

pub fn comment_end_x(s: &[u8], i: usize) -> (r: Option<usize>)
    requires
        i <= s@.len(),
    ensures
        match r {
            Some(j) => comment_end(s@, i as int) == Some(j as int) && i < j <= s@.len(),
            None => comment_end(s@, i as int) is None,
        },
{
    let n = s.len();
    let mut j: usize = i;
    while n - j >= 3 && !(s[j] == B_MINUS && s[j + 1] == B_MINUS && s[j + 2] == B_GT)
        invariant
            i <= j <= n,
            n == s@.len(),
            comment_end(s@, i as int) == comment_end(s@, j as int),
        decreases n - j,
    {
        j = j + 1;
    }
    if n - j >= 3 {
        Some(j + 3)
    } else {
        None
    }
}

pub fn pi_end_x(s: &[u8], i: usize) -> (r: Option<usize>)
    requires
        i <= s@.len(),
    ensures
        match r {
            Some(j) => pi_end(s@, i as int) == Some(j as int) && i < j <= s@.len(),
            None => pi_end(s@, i as int) is None,
        },
{
    let n = s.len();
    let mut j: usize = i;
    while n - j >= 2 && !(s[j] == B_QUESTION && s[j + 1] == B_GT)
        invariant
            i <= j <= n,
            n == s@.len(),
            pi_end(s@, i as int) == pi_end(s@, j as int),
        decreases n - j,
    {
        j = j + 1;
    }
    if n - j >= 2 {
        Some(j + 2)
    } else {
        None
    }
}

pub fn quote_end_x(s: &[u8], i: usize, q: u8) -> (r: Option<usize>)
    requires
        i <= s@.len(),
    ensures
        match r {
            Some(j) => quote_end(s@, i as int, q) == Some(j as int) && i <= j < s@.len(),
            None => quote_end(s@, i as int, q) is None,
        },
{
    let n = s.len();
    let mut j: usize = i;
    while j < n && s[j] != q
        invariant
            i <= j <= n,
            n == s@.len(),
            quote_end(s@, i as int, q) == quote_end(s@, j as int, q),
        decreases n - j,
    {
        j = j + 1;
    }
    if j < n {
        Some(j)
    } else {
        None
    }
}

pub fn misc_end_x(s: &[u8], i: usize) -> (r: usize)
    requires
        i <= s@.len(),
    ensures
        r as int == misc_end(s@, i as int),
        i <= r <= s@.len(),
{
    let n = s.len();
    let mut j: usize = i;
    loop
        invariant
            i <= j <= n,
            n == s@.len(),
            misc_end(s@, i as int) == misc_end(s@, j as int),
        decreases n - j,
    {
        if j >= n {
            return j;
        }
        if s[j] == B_SP || s[j] == B_TAB || s[j] == B_CR || s[j] == B_LF {
            j = j + 1;
        } else if n - j >= 4 && s[j] == B_LT && s[j + 1] == B_BANG && s[j + 2] == B_MINUS && s[j + 3]
            == B_MINUS {
            match comment_end_x(s, j + 4) {
                Some(k) => {
                    j = k;
                },
                None => {
                    return j;
                },
            }
        } else if n - j >= 2 && s[j] == B_LT && s[j + 1] == B_QUESTION {
            match pi_end_x(s, j + 2) {
                Some(k) => {
                    j = k;
                },
                None => {
                    return j;
                },
            }
        } else {
            return j;
        }
    }
}

/// Copy of the byte range `s[a..b)`.
pub fn copy_range(s: &[u8], a: usize, b: usize) -> (out: Vec<u8>)
    requires
        a <= b <= s@.len(),
    ensures
        out@ == s@.subrange(a as int, b as int),
{
    let mut out: Vec<u8> = Vec::new();
    let mut j: usize = a;
    while j < b
        invariant
            a <= j <= b <= s@.len(),
            out@ =~= s@.subrange(a as int, j as int),
        decreases b - j,
    {
        out.push(s[j]);
        proof {
            assert(out@ =~= s@.subrange(a as int, (j + 1) as int));
        }
        j = j + 1;
    }
    out
}

/// The two byte ranges hold the same bytes.
pub fn ranges_eq(s: &[u8], a1: usize, b1: usize, a2: usize, b2: usize) -> (r: bool)
    requires
        a1 <= b1 <= s@.len(),
        a2 <= b2 <= s@.len(),
    ensures
        r == (s@.subrange(a1 as int, b1 as int) == s@.subrange(a2 as int, b2 as int)),
{
    if b1 - a1 != b2 - a2 {
        proof {
            assert(s@.subrange(a1 as int, b1 as int).len() != s@.subrange(a2 as int, b2 as int).len());
        }
        return false;
    }
    let len = b1 - a1;
    let mut k: usize = 0;
    while k < len
        invariant
            k <= len,
            len == b1 - a1 == b2 - a2,
            a1 <= b1 <= s@.len(),
            a2 <= b2 <= s@.len(),
            forall|t: int| 0 <= t < k ==> #[trigger] s@[a1 + t] == s@[a2 + t],
        decreases len - k,
    {
        if s[a1 + k] != s[a2 + k] {
            proof {
                assert(s@.subrange(a1 as int, b1 as int)[k as int] != s@.subrange(
                    a2 as int,
                    b2 as int,
                )[k as int]);
            }
            return false;
        }
        k = k + 1;
    }
    proof {
        let sub1 = s@.subrange(a1 as int, b1 as int);
        let sub2 = s@.subrange(a2 as int, b2 as int);
        assert forall|t: int| 0 <= t < len implies sub1[t] == sub2[t] by {
            assert(s@[a1 + t] == s@[a2 + t]);
        }
        assert(sub1 =~= sub2);
    }
    true
}

pub fn attrs_x(s: &[u8], i: usize) -> (r: Option<(Vec<(Vec<u8>, Vec<u8>)>, usize)>)
    requires
        i <= s@.len(),
    ensures
        match r {
            Some((av, j)) => spec_attrs(s@, i as int, Seq::empty()) == Some(
                (attrs_view(av@), j as int),
            ) && i <= j < s@.len(),
            None => spec_attrs(s@, i as int, Seq::empty()) is None,
        },
{
    let n = s.len();
    let mut av: Vec<(Vec<u8>, Vec<u8>)> = Vec::new();
    let mut pos: usize = i;
    proof {
        assert(attrs_view(av@) =~= Seq::<(Seq<u8>, Seq<u8>)>::empty());
    }
    loop
        invariant
            i <= pos <= n,
            n == s@.len(),
            spec_attrs(s@, i as int, Seq::empty()) == spec_attrs(s@, pos as int, attrs_view(av@)),
        decreases n - pos,
    {
        let j = skip_ws_x(s, pos);
        if j < n && (s[j] == B_GT || s[j] == B_SLASH) {
            return Some((av, j));
        }
        if !(j < n && (
            (B_A <= s[j] && s[j] <= B_Z) || (B_UP_A <= s[j] && s[j] <= B_UP_Z) || s[j] == B_UNDER
            || s[j] == B_COLON)) {
            return None;
        }
        let ne = name_end_x(s, j + 1);
        let k = skip_ws_x(s, ne);
        if !(k < n && s[k] == B_EQ) {
            return None;
        }
        let q = skip_ws_x(s, k + 1);
        if !(q < n && (s[q] == B_DQ || s[q] == B_SQ)) {
            return None;
        }
        match quote_end_x(s, q + 1, s[q]) {
            Some(ve) => {
                let name = copy_range(s, j, ne);
                let val = copy_range(s, q + 1, ve);
                proof {
                    assert(attrs_view(av@.push((name, val))) =~= attrs_view(av@).push(
                        (name@, val@),
                    ));
                    assert(step(s@, pos as int, ve + 1) == (ve + 1) as int);
                }
                av.push((name, val));
                pos = ve + 1;
            },
            None => {
                return None;
            },
        }
    }
}

fn is_name_start_x(c: u8) -> (r: bool)
    ensures
        r == is_name_start(c),
{
    (B_A <= c && c <= B_Z) || (B_UP_A <= c && c <= B_UP_Z) || c == B_UNDER || c == B_COLON
}

/// Reads a start tag at `i`: name range, attributes, position after the
/// tag, and whether it was self-closing.
pub fn open_tag_x(s: &[u8], i: usize) -> (r: Option<(usize, usize, Vec<(Vec<u8>, Vec<u8>)>, usize, bool)>)
    requires
        i <= s@.len(),
    ensures
        match r {
            Some(t) => spec_open_tag(s@, i as int) == Some(
                (s@.subrange(t.0 as int, t.1 as int), attrs_view(t.2@), t.3 as int, t.4),
            ) && i < t.0 <= t.1 <= s@.len() && i < t.3 <= s@.len(),
            None => spec_open_tag(s@, i as int) is None,
        },
{
    let n = s.len();
    if !(n - i >= 2 && s[i] == B_LT && is_name_start_x(s[i + 1])) {
        return None;
    }
    let ne = name_end_x(s, i + 2);
    match attrs_x(s, ne) {
        Some((av, j)) => {
            if s[j] == B_GT {
                Some((i + 1, ne, av, j + 1, false))
            } else if n - j >= 2 && s[j] == B_SLASH && s[j + 1] == B_GT {
                Some((i + 1, ne, av, j + 2, true))
            } else {
                None
            }
        },
        None => None,
    }
}

/// Reads an end tag at `i`: name range and position after its `>`.
pub fn close_tag_x(s: &[u8], i: usize) -> (r: Option<(usize, usize, usize)>)
    requires
        i <= s@.len(),
    ensures
        match r {
            Some(t) => spec_close_tag(s@, i as int) == Some(
                (s@.subrange(t.0 as int, t.1 as int), t.2 as int),
            ) && i < t.0 <= t.1 <= s@.len() && i < t.2 <= s@.len(),
            None => spec_close_tag(s@, i as int) is None,
        },
{
    let n = s.len();
    if !(n - i >= 3 && s[i] == B_LT && s[i + 1] == B_SLASH && is_name_start_x(s[i + 2])) {
        return None;
    }
    let ne = name_end_x(s, i + 3);
    let k = skip_ws_x(s, ne);
    if k < n && s[k] == B_GT {
        Some((i + 2, ne, k + 1))
    } else {
        None
    }
}

/// View of a stack of name ranges.
pub open spec fn stack_view(s: Seq<u8>, st: Seq<(usize, usize)>) -> Seq<Seq<u8>> {
    st.map_values(|r: (usize, usize)| s.subrange(r.0 as int, r.1 as int))
}

/// Consumes balanced content until every element on `stack` is closed,
/// deciding `spec_skip_balanced`.
#[verifier::loop_isolation(false)]
pub fn skip_balanced_x(s: &[u8], i: usize, stack: Vec<(usize, usize)>) -> (r: Option<usize>)
    requires
        i <= s@.len(),
        stack@.len() >= 1,
        forall|t: int| 0 <= t < stack@.len() ==> (#[trigger] stack@[t]).0 <= stack@[t].1 <= s@.len(),
    ensures
        match r {
            Some(j) => spec_skip_balanced(s@, i as int, stack_view(s@, stack@)) == Some(j as int)
                && i < j <= s@.len(),
            None => spec_skip_balanced(s@, i as int, stack_view(s@, stack@)) is None,
        },
{
    let n = s.len();
    let ghost st0 = stack_view(s@, stack@);
    let ghost i0 = i as int;
    let mut st = stack;
    let mut pos: usize = i;
    loop
        invariant
            i <= pos <= n,
            n == s@.len(),
            st@.len() >= 1,
            forall|t: int| 0 <= t < st@.len() ==> (#[trigger] st@[t]).0 <= st@[t].1 <= s@.len(),
            spec_skip_balanced(s@, i0, st0) == spec_skip_balanced(s@, pos as int, stack_view(s@, st@)),
        decreases n - pos,
    {
        if pos >= n {
            return None;
        }
        if s[pos] == B_LT {
            if n - pos >= 2 && s[pos + 1] == B_SLASH {
                match close_tag_x(s, pos) {
                    Some((ns2, ne2, end)) => {
                        let last = st.len() - 1;
                        let (a2, b2) = st[last];
                        if ranges_eq(s, ns2, ne2, a2, b2) {
                            proof {
                                assert(stack_view(s@, st@).last() == s@.subrange(
                                    a2 as int,
                                    b2 as int,
                                ));
                            }
                            if st.len() == 1 {
                                return Some(end);
                            }
                            proof {
                                assert(stack_view(s@, st@.drop_last()) =~= stack_view(
                                    s@,
                                    st@,
                                ).drop_last());
                            }
                            let _popped = st.pop();
                            pos = end;
                        } else {
                            return None;
                        }
                    },
                    None => {
                        return None;
                    },
                }
            } else if n - pos >= 4 && s[pos + 1] == B_BANG && s[pos + 2] == B_MINUS && s[pos + 3]
                == B_MINUS {
                match comment_end_x(s, pos + 4) {
                    Some(k) => {
                        pos = k;
                    },
                    None => {
                        return None;
                    },
                }
            } else {
                match open_tag_x(s, pos) {
                    Some((ns2, ne2, _av, end, sc)) => {
                        if sc {
                            pos = end;
                        } else {
                            proof {
                                assert(stack_view(s@, st@.push((ns2, ne2))) =~= stack_view(
                                    s@,
                                    st@,
                                ).push(s@.subrange(ns2 as int, ne2 as int)));
                            }
                            st.push((ns2, ne2));
                            pos = end;
                        }
                    },
                    None => {
                        return None;
                    },
                }
            }
        } else {
            pos = pos + 1;
        }
    }
}

/// Reads the text of a leaf element whose name stands at `s[na..nb)`,
/// deciding `spec_leaf_text`.
#[verifier::loop_isolation(false)]
pub fn leaf_text_x(s: &[u8], i: usize, na: usize, nb: usize) -> (r: Option<(Vec<u8>, usize)>)
    requires
        i <= s@.len(),
        na <= nb <= s@.len(),
    ensures
        match r {
            Some(t) => spec_leaf_text(
                s@,
                i as int,
                s@.subrange(na as int, nb as int),
                Seq::empty(),
            ) == Some((t.0@, t.1 as int)) && i < t.1 <= s@.len(),
            None => spec_leaf_text(
                s@,
                i as int,
                s@.subrange(na as int, nb as int),
                Seq::empty(),
            ) is None,
        },
{
    let n = s.len();
    let ghost name = s@.subrange(na as int, nb as int);
    let ghost i0 = i as int;
    let mut acc: Vec<u8> = Vec::new();
    let mut pos: usize = i;
    proof {
        assert(acc@ =~= Seq::<u8>::empty());
    }
    loop
        invariant
            i <= pos <= n,
            n == s@.len(),
            na <= nb <= n,
            name == s@.subrange(na as int, nb as int),
            spec_leaf_text(s@, i0, name, Seq::empty()) == spec_leaf_text(
                s@,
                pos as int,
                name,
                acc@,
            ),
        decreases n - pos,
    {
        if pos >= n {
            return None;
        }
        if s[pos] == B_LT {
            if n - pos >= 2 && s[pos + 1] == B_SLASH {
                match close_tag_x(s, pos) {
                    Some((ns2, ne2, end)) => {
                        if ranges_eq(s, ns2, ne2, na, nb) {
                            return Some((acc, end));
                        } else {
                            return None;
                        }
                    },
                    None => {
                        return None;
                    },
                }
            } else if n - pos >= 4 && s[pos + 1] == B_BANG && s[pos + 2] == B_MINUS && s[pos + 3]
                == B_MINUS {
                match comment_end_x(s, pos + 4) {
                    Some(k) => {
                        pos = k;
                    },
                    None => {
                        return None;
                    },
                }
            } else {
                return None;
            }
        } else {
            acc.push(s[pos]);
            pos = pos + 1;
        }
    }
}

/// Copy of a byte vector.
pub fn copy_vec(v: &Vec<u8>) -> (out: Vec<u8>)
    ensures
        out@ == v@,
{
    let mut out: Vec<u8> = Vec::new();
    let mut j: usize = 0;
    while j < v.len()
        invariant
            j <= v@.len(),
            out@ =~= v@.subrange(0, j as int),
        decreases v@.len() - j,
    {
        out.push(v[j]);
        proof {
            assert(out@ =~= v@.subrange(0, (j + 1) as int));
        }
        j = j + 1;
    }
    proof {
        assert(out@ =~= v@);
    }
    out
}

/// The vector holds exactly the three given bytes.
pub fn vec_is3(v: &Vec<u8>, c0: u8, c1: u8, c2: u8) -> (r: bool)
    ensures
        r == (v@ == seq![c0, c1, c2]),
{
    let r = v.len() == 3 && v[0] == c0 && v[1] == c1 && v[2] == c2;
    proof {
        let w = seq![c0, c1, c2];
        if r {
            assert(v@ =~= w);
        }
        if v@ == w {
            assert(v@.len() == 3 && v@[0] == c0 && v@[1] == c1 && v@[2] == c2);
        }
    }
    r
}

/// The range `s[a..b)` holds exactly the three given bytes.
pub fn range_is3(s: &[u8], a: usize, b: usize, c0: u8, c1: u8, c2: u8) -> (r: bool)
    requires
        a <= b <= s@.len(),
    ensures
        r == (s@.subrange(a as int, b as int) == seq![c0, c1, c2]),
{
    let r = b - a == 3 && s[a] == c0 && s[a + 1] == c1 && s[a + 2] == c2;
    proof {
        let sub = s@.subrange(a as int, b as int);
        let w = seq![c0, c1, c2];
        if r {
            assert(sub =~= w);
        }
        if sub == w {
            assert(sub.len() == 3 && sub[0] == c0 && sub[1] == c1 && sub[2] == c2);
        }
    }
    r
}

/// The range `s[a..b)` holds exactly the four given bytes.
pub fn range_is4(s: &[u8], a: usize, b: usize, c0: u8, c1: u8, c2: u8, c3: u8) -> (r: bool)
    requires
        a <= b <= s@.len(),
    ensures
        r == (s@.subrange(a as int, b as int) == seq![c0, c1, c2, c3]),
{
    let r = b - a == 4 && s[a] == c0 && s[a + 1] == c1 && s[a + 2] == c2 && s[a + 3] == c3;
    proof {
        let sub = s@.subrange(a as int, b as int);
        let w = seq![c0, c1, c2, c3];
        if r {
            assert(sub =~= w);
        }
        if sub == w {
            assert(sub.len() == 4 && sub[0] == c0 && sub[1] == c1 && sub[2] == c2 && sub[3] == c3);
        }
    }
    r
}

/// The range `s[a..b)` holds exactly the five given bytes.
pub fn range_is5(s: &[u8], a: usize, b: usize, c0: u8, c1: u8, c2: u8, c3: u8, c4: u8) -> (r: bool)
    requires
        a <= b <= s@.len(),
    ensures
        r == (s@.subrange(a as int, b as int) == seq![c0, c1, c2, c3, c4]),
{
    let r = b - a == 5 && s[a] == c0 && s[a + 1] == c1 && s[a + 2] == c2 && s[a + 3] == c3 && s[a
        + 4] == c4;
    proof {
        let sub = s@.subrange(a as int, b as int);
        let w = seq![c0, c1, c2, c3, c4];
        if r {
            assert(sub =~= w);
        }
        if sub == w {
            assert(sub.len() == 5 && sub[0] == c0 && sub[1] == c1 && sub[2] == c2 && sub[3] == c3
                && sub[4] == c4);
        }
    }
    r
}

/// The range `s[a..b)` holds exactly the six given bytes.
pub fn range_is6(
    s: &[u8],
    a: usize,
    b: usize,
    c0: u8,
    c1: u8,
    c2: u8,
    c3: u8,
    c4: u8,
    c5: u8,
) -> (r: bool)
    requires
        a <= b <= s@.len(),
    ensures
        r == (s@.subrange(a as int, b as int) == seq![c0, c1, c2, c3, c4, c5]),
{
    let r = b - a == 6 && s[a] == c0 && s[a + 1] == c1 && s[a + 2] == c2 && s[a + 3] == c3 && s[a
        + 4] == c4 && s[a + 5] == c5;
    proof {
        let sub = s@.subrange(a as int, b as int);
        let w = seq![c0, c1, c2, c3, c4, c5];
        if r {
            assert(sub =~= w);
        }
        if sub == w {
            assert(sub.len() == 6 && sub[0] == c0 && sub[1] == c1 && sub[2] == c2 && sub[3] == c3
                && sub[4] == c4 && sub[5] == c5);
        }
    }
    r
}

/// The range `s[a..b)` holds exactly the eight given bytes.
pub fn range_is8(
    s: &[u8],
    a: usize,
    b: usize,
    c0: u8,
    c1: u8,
    c2: u8,
    c3: u8,
    c4: u8,
    c5: u8,
    c6: u8,
    c7: u8,
) -> (r: bool)
    requires
        a <= b <= s@.len(),
    ensures
        r == (s@.subrange(a as int, b as int) == seq![c0, c1, c2, c3, c4, c5, c6, c7]),
{
    let r = b - a == 8 && s[a] == c0 && s[a + 1] == c1 && s[a + 2] == c2 && s[a + 3] == c3 && s[a
        + 4] == c4 && s[a + 5] == c5 && s[a + 6] == c6 && s[a + 7] == c7;
    proof {
        let sub = s@.subrange(a as int, b as int);
        let w = seq![c0, c1, c2, c3, c4, c5, c6, c7];
        if r {
            assert(sub =~= w);
        }
        if sub == w {
            assert(sub.len() == 8 && sub[0] == c0 && sub[1] == c1 && sub[2] == c2 && sub[3] == c3
                && sub[4] == c4 && sub[5] == c5 && sub[6] == c6 && sub[7] == c7);
        }
    }
    r
}

/// Looks up a three-byte attribute name, deciding `attr_val`.
#[verifier::loop_isolation(false)]
pub fn attr_lookup3(av: &Vec<(Vec<u8>, Vec<u8>)>, c0: u8, c1: u8, c2: u8) -> (r: Option<Vec<u8>>)
    ensures
        match r {
            Some(v) => attr_val(attrs_view(av@), seq![c0, c1, c2]) == Some(v@),
            None => attr_val(attrs_view(av@), seq![c0, c1, c2]) is None,
        },
{
    let ghost name = seq![c0, c1, c2];
    let mut k: usize = 0;
    while k < av.len()
        invariant
            k <= av@.len(),
            attr_val_from(attrs_view(av@), name, 0) == attr_val_from(
                attrs_view(av@),
                name,
                k as int,
            ),
        decreases av@.len() - k,
    {
        proof {
            assert(attrs_view(av@)[k as int] == (av@[k as int].0@, av@[k as int].1@));
        }
        if vec_is3(&av[k].0, c0, c1, c2) {
            let out = copy_vec(&av[k].1);
            return Some(out);
        }
        k = k + 1;
    }
    None
}


} // verus!
