//! Chunked cache with a completion bitmap.
//!
//! The cache holds a byte region sized to the full content length and a
//! bit per chunk recording which chunks have been written completely.  A
//! chunk is readable only once its exact-length payload has been stored;
//! ranges are served only when every chunk they overlap is complete.
use vstd::prelude::*;

use crate::errors::ProxyError;
use crate::geometry::{
    lemma_chunk_in_file, lemma_chunk_len_shape, lemma_offset_in_chunk, spec_chunk_len,
    spec_chunk_of_offset, spec_chunk_start, spec_total_chunks,
};

verus! {

// ---------------------------------------------------------------------------
// Trusted view of bitvec's `BitVec`, the completion bitmap.
// ---------------------------------------------------------------------------
/// Completion bitmap backed by bitvec's `BitVec` (whose generic bounds
/// Verus cannot declare, so the collection is held behind this opaque
/// wrapper and spoken of through `bitvec_bits`).
#[verifier::external_body]
pub struct Bitmap {
    bits: bitvec::vec::BitVec,
}

/// The bits a `Bitmap` holds, in index order.
pub uninterp spec fn bitvec_bits(b: Bitmap) -> Seq<bool>;

/// Relies on bitvec's `BitVec::repeat`: a vector of `len` copies of the bit.
#[verifier::external_body]
fn bitvec_repeat_false(len: usize) -> (r: Bitmap)
    ensures
        bitvec_bits(r) == Seq::new(len as nat, |i: int| false),
{
    Bitmap { bits: bitvec::vec::BitVec::repeat(false, len) }
}

/// Relies on bitvec's `BitSlice::get`: the bit at `index`, present exactly
/// when `index` is in range.
#[verifier::external_body]
fn bitvec_get(b: &Bitmap, index: usize) -> (r: bool)
    requires
        index < bitvec_bits(*b).len(),
    ensures
        r == bitvec_bits(*b)[index as int],
{
    *b.bits.get(index).unwrap()
}

/// Relies on bitvec's `BitSlice::set`: writes one bit, leaving the rest.
#[verifier::external_body]
fn bitvec_set_true(b: &mut Bitmap, index: usize)
    requires
        index < bitvec_bits(*old(b)).len(),
    ensures
        bitvec_bits(*final(b)) == bitvec_bits(*old(b)).update(index as int, true),
{
    b.bits.set(index, true);
}

// ---------------------------------------------------------------------------
// Specification helpers.
// ---------------------------------------------------------------------------
/// `s` with the bytes starting at `at` replaced by `v`.
pub open spec fn seq_splice(s: Seq<u8>, at: int, v: Seq<u8>) -> Seq<u8>
    recommends
        0 <= at,
        at + v.len() <= s.len(),
{
    s.subrange(0, at) + v + s.subrange(at + v.len(), s.len() as int)
}

/// Total bytes held by the complete chunks with index `j` or above.
pub open spec fn spec_cached_from(bits: Seq<bool>, cl: u64, cs: u64, j: int) -> int
    decreases bits.len() - j,
{
    if j < 0 || j >= bits.len() {
        0
    } else {
        (if bits[j] {
            spec_chunk_len(cl, cs, j)
        } else {
            0
        }) + spec_cached_from(bits, cl, cs, j + 1)
    }
}

/// Setting bit `i` adds chunk `i`'s length to the cached-byte total exactly
/// when the bit was clear, and only for sums that start at or before `i`.
proof fn lemma_cached_from_update(bits: Seq<bool>, cl: u64, cs: u64, i: int, j: int)
    requires
        0 <= i < bits.len(),
        0 <= j,
    ensures
        spec_cached_from(bits.update(i, true), cl, cs, j) == spec_cached_from(bits, cl, cs, j)
            + if j <= i && !bits[i] {
                spec_chunk_len(cl, cs, i)
            } else {
                0
            },
    decreases bits.len() - j,
{
    if j < bits.len() {
        lemma_cached_from_update(bits, cl, cs, i, j + 1);
    }
}

/// The cached-byte total from `j` on is at least 0 and at most the bytes
/// from chunk `j`'s start to the end of the file.
proof fn lemma_cached_from_bound(bits: Seq<bool>, cl: u64, cs: u64, j: int)
    requires
        cs > 0,
        bits.len() == spec_total_chunks(cl, cs),
        0 <= j <= bits.len(),
    ensures
        0 <= spec_cached_from(bits, cl, cs, j),
        spec_cached_from(bits, cl, cs, j) <= if cl - j * cs >= 0 {
            cl - j * cs
        } else {
            0
        },
    decreases bits.len() - j,
{
    if j == bits.len() {
    } else {
        lemma_cached_from_bound(bits, cl, cs, j + 1);
        lemma_chunk_in_file(cl, cs, j);
        assert((j + 1) * cs == j * cs + cs) by (nonlinear_arith);
    }
}

/// An all-clear bitmap caches zero bytes.
proof fn lemma_cached_from_all_false(bits: Seq<bool>, cl: u64, cs: u64, j: int)
    requires
        forall|k: int| 0 <= k < bits.len() ==> !bits[k],
    ensures
        spec_cached_from(bits, cl, cs, j) == 0,
    decreases bits.len() - j,
{
    if 0 <= j < bits.len() {
        lemma_cached_from_all_false(bits, cl, cs, j + 1);
    }
}

/// Index of the first clear bit at or after `j`, or the bitmap length if
/// every later bit is set.
pub open spec fn first_missing_from(bits: Seq<bool>, j: int) -> int
    recommends
        0 <= j <= bits.len(),
    decreases bits.len() - j,
{
    if j < 0 || j >= bits.len() {
        j
    } else if !bits[j] {
        j
    } else {
        first_missing_from(bits, j + 1)
    }
}

/// A run of set bits `[c, i)` ending at a clear bit (or at the end of the
/// bitmap) pins down `first_missing_from`.
proof fn lemma_first_missing(bits: Seq<bool>, c: int, i: int)
    requires
        0 <= c <= i <= bits.len(),
        forall|k: int| c <= k < i ==> bits[k],
        i == bits.len() || !bits[i],
    ensures
        first_missing_from(bits, c) == i,
    decreases i - c,
{
    if c < i {
        lemma_first_missing(bits, c + 1, i);
    }
}

// ---------------------------------------------------------------------------
// The cache.
// ---------------------------------------------------------------------------
/// Chunked byte cache for one session, with a completion bit per chunk.
pub struct DiskCache {
    data: Vec<u8>,
    bitmap: Bitmap,
    chunk_size: u64,
    content_length: u64,
    total_chunks: usize,
    cached_bytes: u64,
}

impl DiskCache {
    /// The completion bitmap: bit `i` is set iff chunk `i` is complete.
    pub closed spec fn bits(self) -> Seq<bool> {
        bitvec_bits(self.bitmap)
    }

    /// The full byte region, one byte per content byte.
    pub closed spec fn contents(self) -> Seq<u8> {
        self.data@
    }

    pub closed spec fn spec_content_length(self) -> u64 {
        self.content_length
    }

    pub closed spec fn spec_chunk_size(self) -> u64 {
        self.chunk_size
    }

    /// Number of chunks in the grid.
    pub open spec fn spec_total(self) -> int {
        spec_total_chunks(self.spec_content_length(), self.spec_chunk_size())
    }

    /// Length of chunk `i` in this cache's geometry.
    pub open spec fn spec_chunk_len_of(self, i: int) -> int {
        spec_chunk_len(self.spec_content_length(), self.spec_chunk_size(), i)
    }

    /// The cached chunk-count field agrees with the grid.
    pub closed spec fn wf_fields(self) -> bool {
        self.total_chunks == self.spec_total()
    }

    /// Structural invariant: a positive chunk grid covering a positive
    /// content length, a bit per chunk, and a cached-byte counter equal to
    /// the summed lengths of the complete chunks.
    pub open spec fn wf(self) -> bool {
        &&& self.wf_fields()
        &&& self.spec_total() <= usize::MAX
        &&& self.spec_chunk_size() > 0
        &&& self.spec_content_length() > 0
        &&& self.spec_content_length() <= usize::MAX as u64
        &&& self.contents().len() == self.spec_content_length()
        &&& self.bits().len() == self.spec_total()
        &&& self.spec_cached() == spec_cached_from(
            self.bits(),
            self.spec_content_length(),
            self.spec_chunk_size(),
            0,
        )
    }

    /// Build a cache for `content_length` bytes in chunks of `chunk_size`.
    ///
    /// Fails exactly when either argument is zero or the region cannot be
    /// addressed on this machine; a fresh cache has every chunk missing and
    /// a zeroed byte region.
    pub fn new(content_length: u64, chunk_size: u64) -> (r: Result<DiskCache, ProxyError>)
        ensures
            r is Ok <==> (content_length > 0 && chunk_size > 0 && content_length <= usize::MAX
                as u64),
            r is Err ==> r->Err_0 == ProxyError::Internal,
            r is Ok ==> {
                let c = r->Ok_0;
                &&& c.wf()
                &&& c.spec_content_length() == content_length
                &&& c.spec_chunk_size() == chunk_size
                &&& c.bits().len() == spec_total_chunks(content_length, chunk_size)
                &&& forall|i: int| 0 <= i < c.bits().len() ==> !c.bits()[i]
                &&& forall|k: int| 0 <= k < c.contents().len() ==> c.contents()[k] == 0
                &&& c.spec_cached()== 0
            },
    {
        if content_length == 0 || chunk_size == 0 || content_length > usize::MAX as u64 {
            return Err(ProxyError::Internal);
        }
        let total_u64 = crate::geometry::chunk_count(content_length, chunk_size);
        proof {
            let cl = content_length as int;
            let cs = chunk_size as int;
            let q = cl / cs;
            if cl % cs == 0 {
                assert(q <= cl) by (nonlinear_arith)
                    requires cl >= 1, cs >= 1, q == cl / cs;
            } else {
                assert(cl % 1int == 0) by (nonlinear_arith);
                assert(q + 1 <= cl) by (nonlinear_arith)
                    requires cl >= 1, cs >= 2, q == cl / cs;
            }
        }
        let total = total_u64 as usize;
        let data = zero_vec(content_length as usize);
        let bitmap = bitvec_repeat_false(total);
        let cache = DiskCache {
            data,
            bitmap,
            chunk_size,
            content_length,
            total_chunks: total,
            cached_bytes: 0,
        };
        proof {
            lemma_cached_from_all_false(cache.bits(), content_length, chunk_size, 0);
        }
        Ok(cache)
    }

    /// Number of chunks in the grid.
    pub fn total_chunks(&self) -> (r: usize)
        requires
            self.wf(),
        ensures
            r == self.spec_total(),
    {
        self.total_chunks
    }

    /// Summed lengths of the complete chunks.
    pub closed spec fn spec_cached(self) -> int {
        self.cached_bytes as int
    }

    /// Bytes held by complete chunks; always the sum of their lengths.
    pub fn cached_bytes(&self) -> (r: u64)
        requires
            self.wf(),
        ensures
            r == self.spec_cached(),
            r == spec_cached_from(self.bits(), self.spec_content_length(), self.spec_chunk_size(),
                0),
    {
        self.cached_bytes
    }

    pub fn content_length(&self) -> (r: u64)
        ensures
            r == self.spec_content_length(),
    {
        self.content_length
    }

    pub fn chunk_size(&self) -> (r: u64)
        ensures
            r == self.spec_chunk_size(),
    {
        self.chunk_size
    }

    /// Whether chunk `chunk_index` is complete; false out of range.
    pub fn has_chunk(&self, chunk_index: usize) -> (r: bool)
        requires
            self.wf(),
        ensures
            r == (chunk_index < self.spec_total() && self.bits()[chunk_index as int]),
    {
        if chunk_index >= self.total_chunks {
            return false;
        }
        bitvec_get(&self.bitmap, chunk_index)
    }

    /// Byte length of chunk `chunk_index`: `chunk_size` everywhere except
    /// the last chunk, which holds the remainder when there is one.
    pub fn chunk_len(&self, chunk_index: usize) -> (r: usize)
        requires
            self.wf(),
            chunk_index < self.spec_total(),
        ensures
            r == self.spec_chunk_len_of(chunk_index as int),
    {
        proof {
            lemma_chunk_len_shape(self.content_length, self.chunk_size, chunk_index as int);
            lemma_chunk_in_file(self.content_length, self.chunk_size, chunk_index as int);
        }
        if chunk_index + 1 < self.total_chunks {
            self.chunk_size as usize
        } else {
            let remainder = (self.content_length % self.chunk_size) as usize;
            if remainder == 0 {
                self.chunk_size as usize
            } else {
                remainder
            }
        }
    }
}

impl DiskCache {
    /// Every chunk overlapping `[start, end)` is complete.
    pub open spec fn spec_range_ready(self, start: int, end: int) -> bool
        recommends
            0 <= start < end <= self.spec_content_length(),
    {
        forall|c: int|
            start / self.spec_chunk_size() as int <= c <= (end - 1)
                / self.spec_chunk_size() as int ==> self.bits()[c]
    }

    /// Store the complete payload of chunk `chunk_index`.
    ///
    /// Fails exactly when the index is out of range or the payload is not
    /// the chunk's exact length.  On success the chunk's bit is set, its
    /// byte span is replaced by `data`, and the cached-byte counter grows
    /// by the chunk length on a clear-to-set transition only.
    pub fn put_chunk(&mut self, chunk_index: usize, data: &[u8]) -> (r: Result<(), ProxyError>)
        requires
            old(self).wf(),
        ensures
            final(self).wf(),
            final(self).spec_chunk_size() == old(self).spec_chunk_size(),
            final(self).spec_content_length() == old(self).spec_content_length(),
            r is Err <==> !(chunk_index < old(self).spec_total() && data@.len() == old(
                self,
            ).spec_chunk_len_of(chunk_index as int)),
            r is Err ==> *final(self) == *old(self) && r->Err_0 == ProxyError::InvalidRange,
            r is Ok ==> final(self).bits() == old(self).bits().update(chunk_index as int, true),
            r is Ok ==> final(self).contents() == seq_splice(
                old(self).contents(),
                spec_chunk_start(old(self).spec_chunk_size(), chunk_index as int),
                data@,
            ),
            r is Ok ==> final(self).spec_cached() == old(self).spec_cached() + (if old(
                self,
            ).bits()[chunk_index as int] {
                0int
            } else {
                old(self).spec_chunk_len_of(chunk_index as int)
            }),
    {
        if chunk_index >= self.total_chunks {
            return Err(ProxyError::InvalidRange);
        }
        let expected = self.chunk_len(chunk_index);
        if data.len() != expected {
            return Err(ProxyError::InvalidRange);
        }
        proof {
            lemma_chunk_in_file(self.content_length, self.chunk_size, chunk_index as int);
        }
        let offset = (chunk_index as u64 * self.chunk_size) as usize;
        copy_into(&mut self.data, offset, data);
        let was = bitvec_get(&self.bitmap, chunk_index);
        proof {
            lemma_cached_from_update(
                self.bits(),
                self.content_length,
                self.chunk_size,
                chunk_index as int,
                0,
            );
            lemma_cached_from_bound(
                self.bits().update(chunk_index as int, true),
                self.content_length,
                self.chunk_size,
                0,
            );
        }
        if !was {
            self.cached_bytes = self.cached_bytes + data.len() as u64;
        }
        bitvec_set_true(&mut self.bitmap, chunk_index);
        Ok(())
    }

    /// Read chunk `chunk_index`; present exactly when the chunk is
    /// complete, and then exactly its byte span (so exactly `chunk_len`
    /// bytes long).
    pub fn read_chunk(&self, chunk_index: usize) -> (r: Option<Vec<u8>>)
        requires
            self.wf(),
        ensures
            r is Some <==> (chunk_index < self.spec_total() && self.bits()[chunk_index as int]),
            r is Some ==> r->Some_0@ == self.contents().subrange(
                spec_chunk_start(self.spec_chunk_size(), chunk_index as int),
                spec_chunk_start(self.spec_chunk_size(), chunk_index as int)
                    + self.spec_chunk_len_of(chunk_index as int),
            ),
            r is Some ==> r->Some_0@.len() == self.spec_chunk_len_of(chunk_index as int),
    {
        if chunk_index >= self.total_chunks {
            return None;
        }
        if !bitvec_get(&self.bitmap, chunk_index) {
            return None;
        }
        proof {
            lemma_chunk_in_file(self.content_length, self.chunk_size, chunk_index as int);
        }
        let offset = (chunk_index as u64 * self.chunk_size) as usize;
        let len = self.chunk_len(chunk_index);
        let piece = vstd::slice::slice_subrange(self.data.as_slice(), offset, offset + len);
        Some(vstd::slice::slice_to_vec(piece))
    }

    /// Read the byte range `[start, end)`.
    ///
    /// Present exactly when the range is non-empty, lies inside the file,
    /// and every chunk it overlaps is complete; no partial reads.  The
    /// result is then exactly that span of the contents, `end - start`
    /// bytes long.
    pub fn read_range(&self, start: u64, end: u64) -> (r: Option<Vec<u8>>)
        requires
            self.wf(),
        ensures
            r is Some <==> (start < end && end <= self.spec_content_length()
                && self.spec_range_ready(start as int, end as int)),
            r is Some ==> r->Some_0@ == self.contents().subrange(start as int, end as int),
            r is Some ==> r->Some_0@.len() == end - start,
    {
        if start >= end || end > self.content_length {
            return None;
        }
        proof {
            lemma_offset_in_chunk(self.content_length, self.chunk_size, start);
            lemma_offset_in_chunk(self.content_length, self.chunk_size, (end - 1) as u64);
            vstd::arithmetic::div_mod::lemma_div_is_ordered(
                start as int,
                (end - 1) as int,
                self.chunk_size as int,
            );
        }
        let first = (start / self.chunk_size) as usize;
        let last = ((end - 1) / self.chunk_size) as usize;
        let mut c = first;
        while c <= last
            invariant
                self.wf(),
                first <= c <= last + 1,
                last < self.spec_total(),
                first == start as int / self.spec_chunk_size() as int,
                last == (end - 1) as int / self.spec_chunk_size() as int,
                forall|k: int| first <= k < c ==> self.bits()[k],
            decreases last + 1 - c,
        {
            if !bitvec_get(&self.bitmap, c) {
                proof {
                    assert(self.spec_range_ready(start as int, end as int)
                        ==> self.bits()[c as int]);
                }
                return None;
            }
            c += 1;
        }
        let piece = vstd::slice::slice_subrange(
            self.data.as_slice(),
            start as usize,
            end as usize,
        );
        Some(vstd::slice::slice_to_vec(piece))
    }

    /// Contiguous cached bytes from `offset` forward: zero when the chunk
    /// containing `offset` is incomplete, else the bytes from `offset` to
    /// the first incomplete chunk boundary (or the end of the file).
    pub open spec fn spec_buffered_ahead(self, offset: u64) -> int {
        if offset >= self.spec_content_length() {
            0
        } else {
            let c = spec_chunk_of_offset(self.spec_chunk_size(), offset);
            if !self.bits()[c] {
                0
            } else {
                let m = first_missing_from(self.bits(), c);
                let end_byte = if m * self.spec_chunk_size() < self.spec_content_length() {
                    m * self.spec_chunk_size() as int
                } else {
                    self.spec_content_length() as int
                };
                end_byte - offset
            }
        }
    }

    /// Contiguous cached bytes ahead of `offset`; zero exactly when
    /// `offset` is past the end or its chunk is incomplete.
    pub fn buffered_bytes_ahead(&self, offset: u64) -> (r: u64)
        requires
            self.wf(),
        ensures
            r == self.spec_buffered_ahead(offset),
            offset < self.spec_content_length() ==> ((r == 0) <==> !self.bits()[
                spec_chunk_of_offset(self.spec_chunk_size(), offset)]),
            offset >= self.spec_content_length() ==> r == 0,
    {
        if offset >= self.content_length {
            return 0;
        }
        proof {
            lemma_offset_in_chunk(self.content_length, self.chunk_size, offset);
        }
        let c = (offset / self.chunk_size) as usize;
        if !bitvec_get(&self.bitmap, c) {
            return 0;
        }
        let clen = self.chunk_len(c);
        proof {
            lemma_chunk_in_file(self.content_length, self.chunk_size, c as int);
            assert((c + 1) as int * self.spec_chunk_size() == c as int * self.spec_chunk_size()
                + self.spec_chunk_size()) by (nonlinear_arith);
        }
        let first_end = c as u64 * self.chunk_size + clen as u64;
        let mut buffered = first_end - offset;
        let mut i = c + 1;
        let mut stop = false;
        while i < self.total_chunks && !stop
            invariant
                self.wf(),
                offset < self.spec_content_length(),
                c == spec_chunk_of_offset(self.spec_chunk_size(), offset),
                c < self.spec_total(),
                self.bits()[c as int],
                c < i <= self.spec_total(),
                c as int * self.spec_chunk_size() <= offset,
                forall|k: int| c <= k < i ==> self.bits()[k],
                stop ==> i < self.spec_total() && !self.bits()[i as int],
                buffered == (if i as int * self.spec_chunk_size()
                    < self.spec_content_length() {
                    i as int * self.spec_chunk_size() as int
                } else {
                    self.spec_content_length() as int
                }) - offset,
            decreases self.spec_total() - i + (if stop { 0int } else { 1int }),
        {
            if !bitvec_get(&self.bitmap, i) {
                stop = true;
            } else {
                let cli = self.chunk_len(i);
                proof {
                    lemma_chunk_in_file(self.content_length, self.chunk_size, i as int);
                    assert((i + 1) as int * self.spec_chunk_size() == i as int
                        * self.spec_chunk_size() + self.spec_chunk_size()) by (nonlinear_arith);
                }
                buffered = buffered + cli as u64;
                i += 1;
            }
        }
        proof {
            lemma_first_missing(self.bits(), c as int, i as int);
            assert((c as int + 1) * self.spec_chunk_size() <= i as int * self.spec_chunk_size())
                by (nonlinear_arith)
                requires
                    c as int + 1 <= i as int,
                    self.spec_chunk_size() >= 0;
        }
        buffered
    }
}

/// Law: writing chunk `i` and then reading it returns the written bytes.
///
/// A successful `put_chunk(i, data)` leaves a cache whose bit `i` is set
/// and whose chunk-`i` byte span equals `data` — which is exactly what
/// `read_chunk(i)` then returns.
pub proof fn lemma_put_then_read_chunk(pre: DiskCache, post: DiskCache, i: int, data: Seq<u8>)
    requires
        pre.wf(),
        0 <= i < pre.spec_total(),
        data.len() == pre.spec_chunk_len_of(i),
        post.spec_content_length() == pre.spec_content_length(),
        post.spec_chunk_size() == pre.spec_chunk_size(),
        post.bits() == pre.bits().update(i, true),
        post.contents() == seq_splice(
            pre.contents(),
            spec_chunk_start(pre.spec_chunk_size(), i),
            data,
        ),
    ensures
        post.bits()[i],
        post.contents().subrange(
            spec_chunk_start(post.spec_chunk_size(), i),
            spec_chunk_start(post.spec_chunk_size(), i) + data.len(),
        ) == data,
{
    lemma_chunk_in_file(pre.spec_content_length(), pre.spec_chunk_size(), i);
    let at = spec_chunk_start(pre.spec_chunk_size(), i);
    assert(post.contents().subrange(at, at + data.len()) =~= data);
}

/// Write `src` over `dst` starting at `offset`, leaving the rest.
fn copy_into(dst: &mut Vec<u8>, offset: usize, src: &[u8])
    requires
        offset + src@.len() <= old(dst)@.len(),
    ensures
        final(dst)@ == seq_splice(old(dst)@, offset as int, src@),
        final(dst)@.len() == old(dst)@.len(),
{
    let n = dst.len();
    let mut k: usize = 0;
    while k < src.len()
        invariant
            k <= src@.len(),
            offset + src@.len() <= old(dst)@.len(),
            old(dst)@.len() == n,
            dst@.len() == old(dst)@.len(),
            forall|j: int|
                0 <= j < old(dst)@.len() && !(offset <= j < offset + k) ==> dst@[j] == old(
                    dst,
                )@[j],
            forall|j: int| 0 <= j < k ==> dst@[offset + j] == src@[j],
        decreases src@.len() - k,
    {
        dst[offset + k] = src[k];
        k += 1;
    }
    proof {
        assert(dst@ =~= seq_splice(old(dst)@, offset as int, src@));
    }
}

/// A vector of `n` zero bytes.
fn zero_vec(n: usize) -> (r: Vec<u8>)
    ensures
        r@.len() == n,
        forall|k: int| 0 <= k < n ==> r@[k] == 0,
{
    let mut v: Vec<u8> = Vec::new();
    while v.len() < n
        invariant
            v@.len() <= n,
            forall|k: int| 0 <= k < v@.len() ==> v@[k] == 0,
        decreases n - v@.len(),
    {
        v.push(0);
    }
    v
}

} // verus!
