//! Chunk geometry: how a file of `content_length` bytes is cut into chunks
//! of `chunk_size` bytes.  Chunk `i` covers the byte range
//! `[i * chunk_size, min((i + 1) * chunk_size, content_length))`; every chunk
//! except possibly the last is exactly `chunk_size` bytes long.
use vstd::prelude::*;

verus! {

/// Number of chunks needed to cover `content_length` bytes:
/// `ceil(content_length / chunk_size)`.
pub open spec fn spec_total_chunks(content_length: u64, chunk_size: u64) -> int
    recommends
        chunk_size > 0,
{
    if content_length % chunk_size == 0 {
        content_length as int / chunk_size as int
    } else {
        content_length as int / chunk_size as int + 1
    }
}

/// First byte offset of chunk `i`.
pub open spec fn spec_chunk_start(chunk_size: u64, i: int) -> int {
    i * chunk_size
}

/// Byte length of chunk `i`: `chunk_size` for all chunks but the last,
/// which holds whatever remains.
pub open spec fn spec_chunk_len(content_length: u64, chunk_size: u64, i: int) -> int
    recommends
        chunk_size > 0,
        0 <= i < spec_total_chunks(content_length, chunk_size),
{
    if content_length - i * chunk_size < chunk_size {
        content_length - i * chunk_size
    } else {
        chunk_size as int
    }
}

/// Every valid chunk starts strictly inside the file and ends within it.
pub proof fn lemma_chunk_in_file(content_length: u64, chunk_size: u64, i: int)
    requires
        chunk_size > 0,
        0 <= i < spec_total_chunks(content_length, chunk_size),
    ensures
        0 <= spec_chunk_start(chunk_size, i) < content_length,
        spec_chunk_start(chunk_size, i) + spec_chunk_len(content_length, chunk_size, i)
            <= content_length,
        spec_chunk_len(content_length, chunk_size, i) > 0,
{
    let cl = content_length as int;
    let cs = chunk_size as int;
    assert(cl % cs == cl - (cl / cs) * cs) by (nonlinear_arith)
        requires cs > 0, cl >= 0;
    assert(i * cs < cl && i * cs + spec_chunk_len(content_length, chunk_size, i) <= cl
        && 0 <= i * cs) by (nonlinear_arith)
        requires
            cs > 0,
            cl >= 0,
            0 <= i,
            cl % cs == cl - (cl / cs) * cs,
            (cl % cs == 0 && i < cl / cs) || (cl % cs != 0 && i < cl / cs + 1),
            spec_chunk_len(content_length, chunk_size, i)
                == if cl - i * cs < cs { cl - i * cs } else { cs };
}

/// All chunks before the last are exactly `chunk_size` long; when the
/// division leaves a remainder `r > 0`, the last chunk is exactly `r` long.
pub proof fn lemma_chunk_len_shape(content_length: u64, chunk_size: u64, i: int)
    requires
        chunk_size > 0,
        0 <= i < spec_total_chunks(content_length, chunk_size),
    ensures
        i + 1 < spec_total_chunks(content_length, chunk_size)
            ==> spec_chunk_len(content_length, chunk_size, i) == chunk_size,
        (i + 1 == spec_total_chunks(content_length, chunk_size)
            && content_length % chunk_size != 0)
            ==> spec_chunk_len(content_length, chunk_size, i) == content_length % chunk_size,
        (i + 1 == spec_total_chunks(content_length, chunk_size)
            && content_length % chunk_size == 0 && content_length > 0)
            ==> spec_chunk_len(content_length, chunk_size, i) == chunk_size,
{
    let cl = content_length as int;
    let cs = chunk_size as int;
    let total = spec_total_chunks(content_length, chunk_size);
    assert(cl % cs == cl - (cl / cs) * cs) by (nonlinear_arith)
        requires cs > 0, cl >= 0;
    assert((i + 1 < total ==> cl - i * cs >= cs)
        && (i + 1 == total && cl % cs != 0 ==> cl - i * cs == cl % cs)
        && (i + 1 == total && cl % cs == 0 && cl > 0 ==> cl - i * cs == cs))
        by (nonlinear_arith)
        requires
            cs > 0,
            cl >= 0,
            0 <= i < total,
            cl % cs == cl - (cl / cs) * cs,
            0 <= cl % cs < cs,
            total == if cl % cs == 0 { cl / cs } else { cl / cs + 1 };
}

/// The chunk that contains byte `offset` is chunk `offset / chunk_size`.
pub open spec fn spec_chunk_of_offset(chunk_size: u64, offset: u64) -> int
    recommends
        chunk_size > 0,
{
    offset as int / chunk_size as int
}

/// A byte offset inside the file lies inside a valid chunk index.
pub proof fn lemma_offset_in_chunk(content_length: u64, chunk_size: u64, offset: u64)
    requires
        chunk_size > 0,
        offset < content_length,
    ensures
        0 <= spec_chunk_of_offset(chunk_size, offset)
            < spec_total_chunks(content_length, chunk_size),
        spec_chunk_start(chunk_size, spec_chunk_of_offset(chunk_size, offset)) <= offset,
        offset < spec_chunk_start(chunk_size, spec_chunk_of_offset(chunk_size, offset))
            + chunk_size,
{
    let cl = content_length as int;
    let cs = chunk_size as int;
    let c = offset as int / cs;
    assert(0 <= c && c * cs <= offset && offset < c * cs + cs) by (nonlinear_arith)
        requires cs > 0, offset >= 0, c == offset as int / cs;
    assert(cl % cs == cl - (cl / cs) * cs) by (nonlinear_arith)
        requires cs > 0, cl >= 0;
    assert(c < spec_total_chunks(content_length, chunk_size)) by (nonlinear_arith)
        requires
            cs > 0,
            0 <= c,
            c * cs <= offset,
            offset < cl,
            cl % cs == cl - (cl / cs) * cs,
            0 <= cl % cs < cs,
            spec_total_chunks(content_length, chunk_size)
                == if cl % cs == 0 { cl / cs } else { cl / cs + 1 };
}

/// Number of chunks needed to cover `content_length` bytes.
pub fn chunk_count(content_length: u64, chunk_size: u64) -> (r: u64)
    requires
        chunk_size > 0,
    ensures
        r == spec_total_chunks(content_length, chunk_size),
{
    let q = content_length / chunk_size;
    if content_length % chunk_size == 0 {
        q
    } else {
        proof {
            let cl = content_length as int;
            let cs = chunk_size as int;
            assert(cl / cs < u64::MAX) by (nonlinear_arith)
                requires cs > 0, 0 <= cl <= u64::MAX, cl % cs != 0;
        }
        q + 1
    }
}

} // verus!
