//! The HTTP edge's range contract: parsing `Range` header values and
//! translating them into the `[start, end)` coordinates a session serves.
use vstd::prelude::*;
use vstd::string::StrSliceExecFns;

use crate::config::STARTUP_PROBE_CLAMP_BYTES;

verus! {

/// A syntactically valid `Range` header value.
#[derive(Clone, Copy, Debug, PartialEq, Eq)]
pub enum ParsedRange {
    /// `bytes=start-` or `bytes=start-end` (inclusive end).
    StartEnd { start: u64, end_inclusive: Option<u64> },
    /// `bytes=-len`: the last `len` bytes.
    Suffix { len: u64 },
}

/// What the edge should do with a request.
#[derive(Clone, Copy, Debug, PartialEq, Eq)]
pub enum RangeDecision {
    /// Serve `[start, end)`; `partial` selects 206 over 200.
    Serve { start: u64, end: u64, partial: bool },
    /// 416, with `Content-Range: bytes */total`.
    NotSatisfiable,
}

// ---------------------------------------------------------------------------
// Character-level helpers.
// ---------------------------------------------------------------------------
/// ASCII whitespace.
pub open spec fn spec_is_space(c: char) -> bool {
    c == ' ' || c == '\t' || c == '\n' || c == '\r' || c == '\u{b}' || c == '\u{c}'
}

/// An ASCII decimal digit.
pub open spec fn spec_is_digit(c: char) -> bool {
    48 <= c as u32 && c as u32 <= 57
}

/// `s` without leading whitespace.
pub open spec fn spec_trim_start(s: Seq<char>) -> Seq<char>
    decreases s.len(),
{
    if s.len() > 0 && spec_is_space(s[0]) {
        spec_trim_start(s.drop_first())
    } else {
        s
    }
}

/// `s` without trailing whitespace.
pub open spec fn spec_trim_end(s: Seq<char>) -> Seq<char>
    decreases s.len(),
{
    if s.len() > 0 && spec_is_space(s[s.len() - 1]) {
        spec_trim_end(s.drop_last())
    } else {
        s
    }
}

/// `s` without leading or trailing whitespace.
pub open spec fn spec_trim(s: Seq<char>) -> Seq<char> {
    spec_trim_end(spec_trim_start(s))
}

/// Index of the first `-` at or after `i`, if any.
pub open spec fn spec_find_dash(s: Seq<char>, i: int) -> Option<int>
    decreases s.len() - i,
{
    if i < 0 || i >= s.len() {
        None
    } else if s[i] == '-' {
        Some(i)
    } else {
        spec_find_dash(s, i + 1)
    }
}

/// Value of a digit string read in base 10.
pub open spec fn spec_digits_val(s: Seq<char>) -> int
    decreases s.len(),
{
    if s.len() == 0 {
        0
    } else {
        spec_digits_val(s.drop_last()) * 10 + (s[s.len() - 1] as u32 - 48)
    }
}

/// Every character is a decimal digit.
pub open spec fn spec_all_digits(s: Seq<char>) -> bool {
    forall|k: int| 0 <= k < s.len() ==> spec_is_digit(s[k])
}

/// The number a digit string denotes: present exactly when the string is
/// non-empty, all digits, and the value fits in u64.
pub open spec fn spec_parse_u64(s: Seq<char>) -> Option<u64> {
    if s.len() > 0 && spec_all_digits(s) && spec_digits_val(s) <= u64::MAX {
        Some(spec_digits_val(s) as u64)
    } else {
        None
    }
}

/// The trimmed value starts with `bytes=`.
pub open spec fn spec_has_bytes_prefix(t: Seq<char>) -> bool {
    t.len() >= 6 && t[0] == 'b' && t[1] == 'y' && t[2] == 't' && t[3] == 'e' && t[4] == 's'
        && t[5] == '='
}

/// The parse `parse_range_header` performs: trim, demand a `bytes=`
/// prefix, split at the first `-`, trim both sides, and read them as
/// decimal numbers.  An empty left side makes a suffix range (rejecting
/// length zero); an empty right side leaves the end open.
pub open spec fn spec_parse_range_header(s: Seq<char>) -> Option<ParsedRange> {
    let t = spec_trim(s);
    if !spec_has_bytes_prefix(t) {
        None
    } else {
        let rest = t.subrange(6, t.len() as int);
        if spec_find_dash(rest, 0) is None {
            None
        } else {
            let d = spec_find_dash(rest, 0)->Some_0;
            let start_str = spec_trim(rest.subrange(0, d));
            let end_str = spec_trim(rest.subrange(d + 1, rest.len() as int));
            if start_str.len() == 0 {
                if spec_parse_u64(end_str) is None {
                    None
                } else if spec_parse_u64(end_str)->Some_0 == 0 {
                    None
                } else {
                    Some(ParsedRange::Suffix { len: spec_parse_u64(end_str)->Some_0 })
                }
            } else {
                if spec_parse_u64(start_str) is None {
                    None
                } else if end_str.len() == 0 {
                    Some(
                        ParsedRange::StartEnd {
                            start: spec_parse_u64(start_str)->Some_0,
                            end_inclusive: None,
                        },
                    )
                } else if spec_parse_u64(end_str) is None {
                    None
                } else {
                    Some(
                        ParsedRange::StartEnd {
                            start: spec_parse_u64(start_str)->Some_0,
                            end_inclusive: Some(spec_parse_u64(end_str)->Some_0),
                        },
                    )
                }
            }
        }
    }
}

// ---------------------------------------------------------------------------
// Lemmas connecting the scanning loops to the recursive specs.
// ---------------------------------------------------------------------------
/// Leading spaces up to `m`, and a non-space (or the end) at `m`, pin
/// down `spec_trim_start`.
proof fn lemma_trim_start_at(s: Seq<char>, m: int)
    requires
        0 <= m <= s.len(),
        forall|k: int| 0 <= k < m ==> spec_is_space(s[k]),
        m < s.len() ==> !spec_is_space(s[m]),
    ensures
        spec_trim_start(s) == s.subrange(m, s.len() as int),
    decreases m,
{
    if m == 0 {
        assert(s.subrange(0, s.len() as int) =~= s);
    } else {
        lemma_trim_start_at(s.drop_first(), m - 1);
        assert(s.drop_first().subrange(m - 1, s.drop_first().len() as int) =~= s.subrange(
            m,
            s.len() as int,
        ));
    }
}

/// Trailing spaces from `m` on, and a non-space (or the start) at `m - 1`,
/// pin down `spec_trim_end`.
proof fn lemma_trim_end_at(s: Seq<char>, m: int)
    requires
        0 <= m <= s.len(),
        forall|k: int| m <= k < s.len() ==> spec_is_space(s[k]),
        m > 0 ==> !spec_is_space(s[m - 1]),
    ensures
        spec_trim_end(s) == s.subrange(0, m),
    decreases s.len(),
{
    if m == s.len() {
        if s.len() > 0 {
            assert(!spec_is_space(s[s.len() - 1]));
        }
        assert(s.subrange(0, s.len() as int) =~= s);
    } else {
        assert(spec_is_space(s[s.len() - 1]));
        lemma_trim_end_at(s.drop_last(), m);
        assert(s.drop_last().subrange(0, m) =~= s.subrange(0, m));
    }
}

/// A dash-free run `[i, j)` ending at a dash (or the end) pins down
/// `spec_find_dash`.
proof fn lemma_find_dash_at(s: Seq<char>, i: int, j: int)
    requires
        0 <= i <= j <= s.len(),
        forall|k: int| i <= k < j ==> s[k] != '-',
        j == s.len() || s[j] == '-',
    ensures
        spec_find_dash(s, i) == (if j < s.len() {
            Some(j)
        } else {
            None::<int>
        }),
    decreases j - i,
{
    if i < j {
        lemma_find_dash_at(s, i + 1, j);
    }
}

/// A digit string's value is non-negative.
proof fn lemma_digits_val_nonneg(s: Seq<char>)
    requires
        spec_all_digits(s),
    ensures
        spec_digits_val(s) >= 0,
    decreases s.len(),
{
    if s.len() > 0 {
        assert(spec_all_digits(s.drop_last()));
        lemma_digits_val_nonneg(s.drop_last());
    }
}

/// A digit string's value only grows as digits are appended.
proof fn lemma_digits_prefix_le(s: Seq<char>, j: int)
    requires
        spec_all_digits(s),
        0 <= j <= s.len(),
    ensures
        spec_digits_val(s.subrange(0, j)) <= spec_digits_val(s),
    decreases s.len() - j,
{
    if j == s.len() {
        assert(s.subrange(0, j) =~= s);
    } else {
        assert(s.subrange(0, j + 1).drop_last() =~= s.subrange(0, j));
        assert(spec_all_digits(s.subrange(0, j)));
        lemma_digits_val_nonneg(s.subrange(0, j));
        lemma_digits_prefix_le(s, j + 1);
    }
}

// ---------------------------------------------------------------------------
// Executable parsing.
// ---------------------------------------------------------------------------
/// The characters of `s`, in order.
pub(crate) fn str_chars(s: &str) -> (r: Vec<char>)
    ensures
        r@ == s@,
{
    let n = s.unicode_len();
    let mut v: Vec<char> = Vec::new();
    let mut i: usize = 0;
    while i < n
        invariant
            n == s@.len(),
            i <= n,
            v@ =~= s@.subrange(0, i as int),
        decreases n - i,
    {
        v.push(s.get_char(i));
        proof {
            assert(v@ =~= s@.subrange(0, i + 1));
        }
        i += 1;
    }
    proof {
        assert(s@.subrange(0, n as int) =~= s@);
    }
    v
}

/// ASCII whitespace.
pub(crate) fn is_space_char(c: char) -> (r: bool)
    ensures
        r == spec_is_space(c),
{
    c == ' ' || c == '\t' || c == '\n' || c == '\r' || c == '\u{b}' || c == '\u{c}'
}

/// Indices `(lo, hi)` of the window `[a, b)` with surrounding whitespace
/// removed: `chars[lo..hi]` is the trimmed window.
fn trim_window(chars: &Vec<char>, a: usize, b: usize) -> (r: (usize, usize))
    requires
        a <= b <= chars@.len(),
    ensures
        a <= r.0 <= r.1 <= b,
        chars@.subrange(r.0 as int, r.1 as int) == spec_trim(chars@.subrange(a as int, b as int)),
{
    let ghost w = chars@.subrange(a as int, b as int);
    let mut lo = a;
    while lo < b && is_space_char(chars[lo])
        invariant
            a <= lo <= b <= chars@.len(),
            forall|k: int| a <= k < lo ==> spec_is_space(chars@[k]),
        decreases b - lo,
    {
        lo += 1;
    }
    let mut hi = b;
    while hi > lo && is_space_char(chars[hi - 1])
        invariant
            lo <= hi <= b <= chars@.len(),
            forall|k: int| hi <= k < b ==> spec_is_space(chars@[k]),
        decreases hi,
    {
        hi -= 1;
    }
    proof {
        lemma_trim_start_at(w, lo - a);
        assert(w.subrange(lo - a, w.len() as int) =~= chars@.subrange(lo as int, b as int));
        let w2 = chars@.subrange(lo as int, b as int);
        lemma_trim_end_at(w2, hi - lo);
        assert(w2.subrange(0, hi - lo) =~= chars@.subrange(lo as int, hi as int));
    }
    (lo, hi)
}

/// The decimal number in the window `[a, b)`, if the window is a
/// non-empty digit string whose value fits in u64.
pub(crate) fn parse_u64_in(chars: &Vec<char>, a: usize, b: usize) -> (r: Option<u64>)
    requires
        a <= b <= chars@.len(),
    ensures
        r == spec_parse_u64(chars@.subrange(a as int, b as int)),
{
    let ghost w = chars@.subrange(a as int, b as int);
    if a == b {
        return None;
    }
    let mut acc: u64 = 0;
    let mut i = a;
    while i < b
        invariant
            a <= i <= b <= chars@.len(),
            w == chars@.subrange(a as int, b as int),
            forall|k: int| a <= k < i ==> spec_is_digit(chars@[k]),
            acc == spec_digits_val(chars@.subrange(a as int, i as int)),
        decreases b - i,
    {
        let c = chars[i];
        let u = c as u32;
        if u < 48 || u > 57 {
            proof {
                assert(!spec_is_digit(w[i - a]));
            }
            return None;
        }
        let d = (u - 48) as u64;
        let wide = (acc as u128) * 10 + (d as u128);
        proof {
            assert(chars@.subrange(a as int, i + 1).drop_last() =~= chars@.subrange(
                a as int,
                i as int,
            ));
        }
        if wide > u64::MAX as u128 {
            proof {
                if spec_all_digits(w) {
                    assert(w.subrange(0, i + 1 - a) =~= chars@.subrange(a as int, i + 1));
                    lemma_digits_prefix_le(w, i + 1 - a);
                }
            }
            return None;
        }
        acc = wide as u64;
        i += 1;
    }
    proof {
        assert(chars@.subrange(a as int, i as int) =~= w);
    }
    Some(acc)
}

/// Parse a `Range` header value: `bytes=start-end`, `bytes=start-`, or
/// `bytes=-suffix_len`, with whitespace tolerated around the value and
/// around each number.
pub fn parse_range_header(value: &str) -> (r: Option<ParsedRange>)
    ensures
        r == spec_parse_range_header(value@),
{
    let chars = str_chars(value);
    let n = chars.len();
    let trimmed = trim_window(&chars, 0, n);
    let tlo = trimmed.0;
    let thi = trimmed.1;
    proof {
        assert(chars@.subrange(0, n as int) =~= chars@);
    }
    let ghost t = spec_trim(value@);
    if thi - tlo < 6 {
        return None;
    }
    if !(chars[tlo] == 'b' && chars[tlo + 1] == 'y' && chars[tlo + 2] == 't' && chars[tlo + 3]
        == 'e' && chars[tlo + 4] == 's' && chars[tlo + 5] == '=') {
        return None;
    }
    let rs = tlo + 6;
    let ghost rest = t.subrange(6, t.len() as int);
    proof {
        assert(rest =~= chars@.subrange(rs as int, thi as int));
    }
    let mut dd = rs;
    let mut found = false;
    while dd < thi && !found
        invariant
            rs <= dd <= thi <= chars@.len(),
            forall|k: int| rs <= k < dd ==> chars@[k] != '-',
            found ==> dd < thi && chars@[dd as int] == '-',
        decreases thi - dd + (if found {
            0int
        } else {
            1int
        }),
    {
        if chars[dd] == '-' {
            found = true;
        } else {
            dd += 1;
        }
    }
    proof {
        lemma_find_dash_at(rest, 0, dd - rs);
    }
    if !found {
        return None;
    }
    let ghost d = dd - rs;
    let ss = trim_window(&chars, rs, dd);
    let es = trim_window(&chars, dd + 1, thi);
    proof {
        assert(rest.subrange(0, d) =~= chars@.subrange(rs as int, dd as int));
        assert(rest.subrange(d + 1, rest.len() as int) =~= chars@.subrange(
            dd + 1,
            thi as int,
        ));
    }
    if ss.0 == ss.1 {
        match parse_u64_in(&chars, es.0, es.1) {
            None => None,
            Some(l) => {
                if l == 0 {
                    None
                } else {
                    Some(ParsedRange::Suffix { len: l })
                }
            },
        }
    } else {
        match parse_u64_in(&chars, ss.0, ss.1) {
            None => None,
            Some(st) => {
                if es.0 == es.1 {
                    Some(ParsedRange::StartEnd { start: st, end_inclusive: None })
                } else {
                    match parse_u64_in(&chars, es.0, es.1) {
                        None => None,
                        Some(e) => Some(
                            ParsedRange::StartEnd { start: st, end_inclusive: Some(e) },
                        ),
                    }
                }
            },
        }
    }
}

// ---------------------------------------------------------------------------
// Range resolution.
// ---------------------------------------------------------------------------
/// How the edge translates a parsed `Range` (or its absence) for a file of
/// `total` bytes.
pub open spec fn spec_resolve_range(range: Option<ParsedRange>, total: u64) -> RangeDecision
    recommends
        total > 0,
{
    match range {
        Some(ParsedRange::StartEnd { start, end_inclusive: Some(e) }) => {
            let end = if e + 1 < total {
                e + 1
            } else {
                total as int
            };
            if start >= total || end <= start {
                RangeDecision::NotSatisfiable
            } else {
                RangeDecision::Serve { start, end: end as u64, partial: true }
            }
        },
        Some(ParsedRange::StartEnd { start, end_inclusive: None }) => {
            if start >= total {
                RangeDecision::NotSatisfiable
            } else {
                let end = if start + STARTUP_PROBE_CLAMP_BYTES < total {
                    start + STARTUP_PROBE_CLAMP_BYTES
                } else {
                    total as int
                };
                RangeDecision::Serve { start, end: end as u64, partial: true }
            }
        },
        Some(ParsedRange::Suffix { len }) => {
            RangeDecision::Serve {
                start: if total > len {
                    (total - len) as u64
                } else {
                    0
                },
                end: total,
                partial: true,
            }
        },
        None => {
            let end = if STARTUP_PROBE_CLAMP_BYTES < total {
                STARTUP_PROBE_CLAMP_BYTES
            } else {
                total
            };
            RangeDecision::Serve { start: 0, end, partial: end < total }
        },
    }
}

/// Decide how to answer a request for a file of `total` bytes.
///
/// `bytes=S-E` serves `[S, min(E + 1, total))` and is unsatisfiable when
/// `S >= total` or the clamped end does not exceed `S`.  `bytes=S-` serves
/// at most `STARTUP_PROBE_CLAMP_BYTES` from `S`.  `bytes=-L` serves the
/// last `L` bytes.  Without a `Range` header the head of the file is
/// served, clamped the same way, as a full response only when the clamp
/// covers the file.
pub fn resolve_range(range: Option<ParsedRange>, total: u64) -> (r: RangeDecision)
    requires
        total > 0,
    ensures
        r == spec_resolve_range(range, total),
        range == Some(ParsedRange::StartEnd { start: 0, end_inclusive: Some(0) }) ==> r == (
        RangeDecision::Serve { start: 0, end: 1, partial: true }),
        (range matches Some(ParsedRange::StartEnd { start, .. }) && start >= total) ==> r
            == RangeDecision::NotSatisfiable,
        range matches Some(ParsedRange::StartEnd { start, end_inclusive: None }) ==> (start
            < total ==> (r matches RangeDecision::Serve { start: s, end, partial } && s == start
            && partial && end - start == (if STARTUP_PROBE_CLAMP_BYTES <= total - start {
            STARTUP_PROBE_CLAMP_BYTES as int
        } else {
            total - start
        }))),
        range matches Some(ParsedRange::Suffix { len }) ==> (r matches RangeDecision::Serve {
            start,
            end,
            partial,
        } && start == (if total > len {
            total - len
        } else {
            0int
        }) && end == total && partial),
    {
        match range {
            Some(ParsedRange::StartEnd { start, end_inclusive: Some(e) }) => {
                let end = if e >= total {
                    total
                } else {
                    e + 1
                };
                if start >= total || end <= start {
                    RangeDecision::NotSatisfiable
                } else {
                    RangeDecision::Serve { start, end, partial: true }
                }
            },
            Some(ParsedRange::StartEnd { start, end_inclusive: None }) => {
                if start >= total {
                    RangeDecision::NotSatisfiable
                } else {
                    let end = if STARTUP_PROBE_CLAMP_BYTES < total - start {
                        start + STARTUP_PROBE_CLAMP_BYTES
                    } else {
                        total
                    };
                    RangeDecision::Serve { start, end, partial: true }
                }
            },
            Some(ParsedRange::Suffix { len }) => {
                let start = if total > len {
                    total - len
                } else {
                    0
                };
                RangeDecision::Serve { start, end: total, partial: true }
            },
            None => {
                let end = if STARTUP_PROBE_CLAMP_BYTES < total {
                    STARTUP_PROBE_CLAMP_BYTES
                } else {
                    total
                };
                RangeDecision::Serve { start: 0, end, partial: end < total }
            },
        }
    }

/// The `(start, exclusive end)` pair a HEAD response's `Content-Range`
/// reports for a parsed range: the end clamp of `resolve_range`, but an
/// open end runs to the end of the file.
pub fn head_content_range(range: ParsedRange, total: u64) -> (r: (u64, u64))
    requires
        total > 0,
    ensures
        range matches ParsedRange::StartEnd { start, end_inclusive: Some(e) } ==> r.0 == start
            && r.1 == (if e + 1 < total {
            e + 1
        } else {
            total as int
        }),
        range matches ParsedRange::StartEnd { start, end_inclusive: None } ==> r.0 == start && r.1
            == total,
        range matches ParsedRange::Suffix { len } ==> r.0 == (if total > len {
            total - len
        } else {
            0int
        }) && r.1 == total,
{
    match range {
        ParsedRange::StartEnd { start, end_inclusive } => {
            let end = match end_inclusive {
                Some(e) => {
                    if e >= total {
                        total
                    } else {
                        e + 1
                    }
                },
                None => total,
            };
            (start, end)
        },
        ParsedRange::Suffix { len } => {
            let start = if total > len {
                total - len
            } else {
                0
            };
            (start, total)
        },
    }
}

} // verus!
