//! The origin adapter's decisions.
//!
//! The network calls themselves (probe and range fetches over HTTP) run
//! outside this crate; verified here is how their responses are
//! interpreted: auth rejection, range support, the total size read from a
//! `Content-Range` header, the effective concurrency derived from the
//! resolved route pool, credential-update gating, and the offset
//! translation of a container-wrapped source.
use vstd::prelude::*;
use vstd::string::StringExecFns;
use vstd::string::StrSliceExecFns;

use crate::errors::ProxyError;
use crate::range::{spec_is_space, spec_parse_u64};

verus! {

/// What a probe learns about an origin.
#[derive(Debug, Clone)]
pub struct SourceInfo {
    pub content_length: u64,
    pub content_type: String,
    pub supports_range: bool,
}

/// An origin status code that signals rejected credentials.
pub open spec fn spec_is_auth_rejected(status: u16) -> bool {
    status == 401 || status == 403 || status == 412
}

/// An HTTP success status.
pub open spec fn spec_is_success(status: u16) -> bool {
    200 <= status && status <= 299
}

/// Index of the last `/` in `s`, if any.
pub open spec fn spec_rfind_slash(s: Seq<char>, i: int) -> Option<int>
    decreases i + 1,
{
    if i < 0 || i >= s.len() {
        None
    } else if s[i] == '/' {
        Some(i)
    } else {
        spec_rfind_slash(s, i - 1)
    }
}

/// The total a `Content-Range: bytes a-b/<total>` value carries: the
/// decimal number after the last `/` (the whole value if it has none).
pub open spec fn spec_content_range_total(s: Seq<char>) -> Option<u64> {
    match spec_rfind_slash(s, s.len() - 1) {
        Some(k) => spec_parse_u64(s.subrange(k + 1, s.len() as int)),
        None => spec_parse_u64(s),
    }
}

/// A slash-free run `(j, i]` below a slash (or the start) pins down
/// `spec_rfind_slash`.
proof fn lemma_rfind_slash_at(s: Seq<char>, i: int, j: int)
    requires
        -1 <= j <= i < s.len(),
        forall|k: int| j < k <= i ==> s[k] != '/',
        j == -1 || s[j] == '/',
    ensures
        spec_rfind_slash(s, i) == (if j >= 0 {
            Some(j)
        } else {
            None::<int>
        }),
    decreases i - j,
{
    if j < i {
        lemma_rfind_slash_at(s, i - 1, j);
    }
}

/// Read the total size out of a `Content-Range` header value.
pub fn parse_content_range_total(value: &str) -> (r: Option<u64>)
    ensures
        r == spec_content_range_total(value@),
{
    let chars = crate::range::str_chars(value);
    let n = chars.len();
    let mut j: usize = n;
    let mut found = false;
    while j > 0 && !found
        invariant
            n == chars@.len(),
            j <= n,
            !found ==> (forall|k: int| j <= k < n ==> chars@[k] != '/'),
            found ==> j < n && chars@[j as int] == '/',
            found ==> (forall|k: int| j < k < n ==> chars@[k] != '/'),
        decreases j + (if found {
            0int
        } else {
            1int
        }),
    {
        if chars[j - 1] == '/' {
            j -= 1;
            found = true;
        } else {
            j -= 1;
        }
    }
    proof {
        if n > 0 {
            if found {
                lemma_rfind_slash_at(chars@, n as int - 1, j as int);
            } else {
                lemma_rfind_slash_at(chars@, n as int - 1, -1);
            }
        }
    }
    proof {
        assert(chars@.subrange(0, n as int) =~= chars@);
    }
    if found {
        crate::range::parse_u64_in(&chars, j + 1, n)
    } else {
        crate::range::parse_u64_in(&chars, 0, n)
    }
}

/// Interpret a probe response.
///
/// Status 401, 403 or 412 rejects the credentials; any other non-success
/// status fails the probe.  On success, range support means exactly
/// status 206; the content length is read from `Content-Range` when
/// ranges are supported and from `Content-Length` otherwise, zero when
/// absent or unreadable; a missing `Content-Type` defaults to
/// `application/octet-stream`.
pub fn interpret_probe(
    status: u16,
    content_range: Option<&str>,
    content_length_header: Option<&str>,
    content_type: Option<&str>,
) -> (r: Result<SourceInfo, ProxyError>)
    ensures
        r is Err <==> !spec_is_success(status),
        r is Err ==> r->Err_0 == (if spec_is_auth_rejected(status) {
            ProxyError::AuthRejected
        } else {
            ProxyError::FetchFailed
        }),
        r is Ok ==> ({
            let info = r->Ok_0;
            &&& info.supports_range == (status == 206)
            &&& info.content_length == (if status == 206 {
                match content_range {
                    Some(v) => match spec_content_range_total(v@) {
                        Some(t) => t,
                        None => 0,
                    },
                    None => 0u64,
                }
            } else {
                match content_length_header {
                    Some(v) => match spec_parse_u64(v@) {
                        Some(t) => t,
                        None => 0,
                    },
                    None => 0u64,
                }
            })
            &&& info.content_type@ == (match content_type {
                Some(v) => v@,
                None => "application/octet-stream"@,
            })
        }),
{
    if status == 401 || status == 403 || status == 412 {
        return Err(ProxyError::AuthRejected);
    }
    if status < 200 || status > 299 {
        return Err(ProxyError::FetchFailed);
    }
    let supports_range = status == 206;
    let content_length = if supports_range {
        match content_range {
            Some(v) => {
                match parse_content_range_total(v) {
                    Some(t) => t,
                    None => 0,
                }
            },
            None => 0,
        }
    } else {
        match content_length_header {
            Some(v) => {
                let chars = crate::range::str_chars(v);
                let n = chars.len();
                proof {
                    assert(chars@.subrange(0, n as int) =~= chars@);
                }
                match crate::range::parse_u64_in(&chars, 0, n) {
                    Some(t) => t,
                    None => 0,
                }
            },
            None => 0,
        }
    };
    let content_type_owned = match content_type {
        Some(v) => String::from_str(v),
        None => String::from_str("application/octet-stream"),
    };
    Ok(SourceInfo { content_length, content_type: content_type_owned, supports_range })
}

/// Interpret a range-fetch response's status: auth rejection on 401/403/
/// 412, fetch failure on any other non-success, else the payload stands.
pub fn interpret_fetch_status(status: u16) -> (r: Result<(), ProxyError>)
    ensures
        r is Err <==> !spec_is_success(status),
        r is Err ==> r->Err_0 == (if spec_is_auth_rejected(status) {
            ProxyError::AuthRejected
        } else {
            ProxyError::FetchFailed
        }),
{
    if status == 401 || status == 403 || status == 412 {
        return Err(ProxyError::AuthRejected);
    }
    if status < 200 || status > 299 {
        return Err(ProxyError::FetchFailed);
    }
    Ok(())
}

/// Effective fetch concurrency: the configured count, clamped to 8 and to
/// the size of the resolved route pool (counting an empty pool as one
/// route).
pub fn effective_concurrency(configured: u32, route_pool_size: usize) -> (r: u32)
    ensures
        r == ({
            let by_ip: int = if route_pool_size > 0 {
                route_pool_size as int
            } else {
                1
            };
            let capped: int = if configured > 8 {
                8
            } else {
                configured as int
            };
            if capped < by_ip {
                capped
            } else {
                by_ip
            }
        }),
{
    let by_ip: u64 = if route_pool_size > 0 {
        route_pool_size as u64
    } else {
        1
    };
    let capped: u64 = if configured > 8 {
        8
    } else {
        configured as u64
    };
    let eff = if capped < by_ip {
        capped
    } else {
        by_ip
    };
    eff as u32
}

/// First-occurrence deduplication of a key sequence, in order.
pub open spec fn spec_dedup_keys(keys: Seq<u128>) -> Seq<u128>
    decreases keys.len(),
{
    if keys.len() == 0 {
        Seq::empty()
    } else {
        let rest = spec_dedup_keys(keys.drop_last());
        if rest.contains(keys.last()) {
            rest
        } else {
            rest.push(keys.last())
        }
    }
}

/// The route pool kept from a resolution: the distinct addresses in
/// first-occurrence order, capped at eight.
pub open spec fn spec_route_pool(keys: Seq<u128>) -> Seq<u128> {
    let d = spec_dedup_keys(keys);
    if d.len() <= 8 {
        d
    } else {
        d.subrange(0, 8)
    }
}

/// Whether a key occurs in the vector.
fn keys_contain(keys: &Vec<u128>, key: u128) -> (r: bool)
    ensures
        r == keys@.contains(key),
{
    let n = keys.len();
    let mut i: usize = 0;
    while i < n
        invariant
            n == keys@.len(),
            i <= n,
            forall|k: int| 0 <= k < i ==> keys@[k] != key,
        decreases n - i,
    {
        if keys[i] == key {
            return true;
        }
        i += 1;
    }
    false
}

/// Keep each resolved address once, in the order first seen, at most
/// eight (addresses are passed as their 128-bit keys).
pub fn dedup_routes(keys: &Vec<u128>) -> (r: Vec<u128>)
    ensures
        r@ == spec_route_pool(keys@),
        r@.len() <= 8,
        forall|a: int, b: int| 0 <= a < b < r@.len() ==> r@[a] != r@[b],
        forall|k: int| 0 <= k < r@.len() ==> keys@.contains(#[trigger] r@[k]),
{
    let mut out: Vec<u128> = Vec::new();
    let n = keys.len();
    let mut i: usize = 0;
    while i < n
        invariant
            n == keys@.len(),
            i <= n,
            out@ == spec_dedup_keys(keys@.subrange(0, i as int)),
        decreases n - i,
    {
        proof {
            assert(keys@.subrange(0, i + 1).drop_last() =~= keys@.subrange(0, i as int));
        }
        if !keys_contain(&out, keys[i]) {
            out.push(keys[i]);
        }
        i += 1;
    }
    proof {
        assert(keys@.subrange(0, n as int) =~= keys@);
        lemma_dedup_distinct(keys@);
        lemma_dedup_members(keys@);
    }
    out.truncate(8);
    out
}

/// A deduplicated sequence has no repeats.
proof fn lemma_dedup_distinct(keys: Seq<u128>)
    ensures
        forall|a: int, b: int|
            0 <= a < b < spec_dedup_keys(keys).len() ==> spec_dedup_keys(keys)[a]
                != spec_dedup_keys(keys)[b],
    decreases keys.len(),
{
    if keys.len() > 0 {
        lemma_dedup_distinct(keys.drop_last());
        let rest = spec_dedup_keys(keys.drop_last());
        let d = spec_dedup_keys(keys);
        assert forall|a: int, b: int| 0 <= a < b < d.len() implies d[a] != d[b] by {
            if !rest.contains(keys.last()) && b == rest.len() {
                if d[a] == d[b] {
                    assert(rest[a] == keys.last());
                    assert(rest.contains(keys.last()));
                }
            }
        }
    }
}

/// Every kept key came from the input.
proof fn lemma_dedup_members(keys: Seq<u128>)
    ensures
        forall|k: int|
            0 <= k < spec_dedup_keys(keys).len() ==> keys.contains(
                #[trigger] spec_dedup_keys(keys)[k],
            ),
    decreases keys.len(),
{
    if keys.len() > 0 {
        lemma_dedup_members(keys.drop_last());
        assert forall|k: int|
            0 <= k < spec_dedup_keys(keys).len() implies keys.contains(
            #[trigger] spec_dedup_keys(keys)[k],
        ) by {
            let rest = spec_dedup_keys(keys.drop_last());
            if k < rest.len() {
                let j = choose|j: int| 0 <= j < keys.drop_last().len() && keys.drop_last()[j]
                    == rest[k];
                assert(keys[j] == rest[k]);
            } else {
                assert(keys[keys.len() - 1] == spec_dedup_keys(keys)[k]);
            }
        }
    }
}

/// Round-robin pick over the route pool.
pub fn pick_route_index(counter: usize, route_pool_size: usize) -> (r: usize)
    requires
        route_pool_size > 0,
    ensures
        r == counter as int % route_pool_size as int,
{
    counter % route_pool_size
}

/// Every character is whitespace (so trimming leaves nothing).
pub open spec fn spec_is_blank(s: Seq<char>) -> bool {
    forall|k: int| 0 <= k < s.len() ==> spec_is_space(s[k])
}

/// Which halves of a credential update to apply: a blank replacement URL
/// is ignored, and so is an empty replacement header map.
pub fn auth_update_plan(new_url: &str, new_header_count: usize) -> (r: (bool, bool))
    ensures
        r.0 == !spec_is_blank(new_url@),
        r.1 == (new_header_count != 0),
{
    let chars = crate::range::str_chars(new_url);
    let n = chars.len();
    let mut i: usize = 0;
    let mut blank = true;
    while i < n && blank
        invariant
            n == chars@.len(),
            i <= n,
            blank ==> (forall|k: int| 0 <= k < i ==> spec_is_space(chars@[k])),
            !blank ==> i < n && !spec_is_space(chars@[i as int]),
        decreases n - i + (if blank {
            1int
        } else {
            0int
        }),
    {
        if !crate::range::is_space_char(chars[i]) {
            blank = false;
        } else {
            i += 1;
        }
    }
    (!blank, new_header_count != 0)
}

/// Translate a byte range of the inner media stream to absolute offsets
/// in the container that wraps it.
pub fn translate_inner_range(file_offset: u64, start: u64, end: u64) -> (r: (u64, u64))
    requires
        start <= end,
        file_offset + end <= u64::MAX,
    ensures
        r.0 == file_offset + start,
        r.1 == file_offset + end,
{
    (file_offset + start, file_offset + end)
}

} // verus!
