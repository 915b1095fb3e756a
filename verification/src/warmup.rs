//! Warmup planner: given the file's first bytes, derive the inclusive byte
//! ranges to prefetch so playback can start quickly.
use vstd::prelude::*;

use crate::detect::{
    detect_container, find_moov_box, spec_detect_container, spec_moov_scan, ContainerFormat,
};

verus! {

/// How much of the file's head the planner wants to inspect:
/// `min(chunk_size, 32 KiB, content_length)`.
pub open spec fn spec_probe_size(content_length: u64, chunk_size: u64) -> int {
    let a = if chunk_size < 32768 {
        chunk_size as int
    } else {
        32768
    };
    if a < content_length {
        a
    } else {
        content_length as int
    }
}

/// Number of header bytes to fetch for warmup planning.
pub fn warmup_probe_size(content_length: u64, chunk_size: u64) -> (r: u64)
    ensures
        r == spec_probe_size(content_length, chunk_size),
{
    let a = if chunk_size < 32768 {
        chunk_size
    } else {
        32768
    };
    if a < content_length {
        a
    } else {
        content_length
    }
}

/// The head range: the first chunk, clamped to the file.
pub open spec fn spec_head_range(content_length: u64, chunk_size: u64) -> (u64, u64)
    recommends
        content_length > 0,
        chunk_size > 0,
{
    (0u64, ((if chunk_size < content_length {
        chunk_size as int
    } else {
        content_length as int
    }) - 1) as u64)
}

/// The tail range: the last `chunk_size` bytes; meaningful only when the
/// file is longer than one chunk.
pub open spec fn spec_tail_range(content_length: u64, chunk_size: u64) -> (u64, u64)
    recommends
        content_length > chunk_size,
{
    ((content_length - chunk_size) as u64, (content_length - 1) as u64)
}

/// The ranges the planner returns for a header, in order.
pub open spec fn spec_warmup_ranges(h: Seq<u8>, content_length: u64, chunk_size: u64) -> Seq<
    (u64, u64),
>
    recommends
        content_length > 0,
        chunk_size > 0,
{
    let cl = content_length as int;
    let cs = chunk_size as int;
    let head = spec_head_range(content_length, chunk_size);
    let head_tail = if cl > cs {
        seq![head, spec_tail_range(content_length, chunk_size)]
    } else {
        seq![head]
    };
    if spec_detect_container(h) == ContainerFormat::Mp4 {
        if spec_moov_scan(h, 0) is Some {
            let m = spec_moov_scan(h, 0)->Some_0;
            let moov_end = m.0 + m.1;
            let end = if moov_end == 0 {
                0
            } else if moov_end < cl {
                moov_end - 1
            } else {
                cl - 1
            };
            seq![(0u64, end as u64)]
        } else {
            head_tail
        }
    } else if spec_detect_container(h) == ContainerFormat::Matroska || spec_detect_container(h)
        == ContainerFormat::TransportStream {
        seq![head]
    } else {
        head_tail
    }
}

/// Plan the warmup prefetch for a file whose header bytes are given.
///
/// MP4 with a "moov" box announced in the header: one range from the file
/// start through the end of that box (clamped to the file).  MP4 without
/// it, and unknown formats: the head chunk plus, when the file is longer
/// than a chunk, the tail chunk.  Matroska/WebM and MPEG-TS: the head
/// chunk only.
pub fn compute_warmup_ranges(header: &[u8], content_length: u64, chunk_size: u64) -> (r: Vec<
    (u64, u64),
>)
    requires
        content_length > 0,
        chunk_size > 0,
    ensures
        r@ == spec_warmup_ranges(header@, content_length, chunk_size),
{
    let format = detect_container(header);
    let mut ranges: Vec<(u64, u64)> = Vec::new();
    let head_end = (if chunk_size < content_length {
        chunk_size
    } else {
        content_length
    }) - 1;
    match format {
        ContainerFormat::Mp4 => {
            match find_moov_box(header) {
                Some(moov) => {
                    let (moov_offset, moov_size) = moov;
                    let moov_end = if moov_size > u64::MAX - moov_offset {
                        u64::MAX
                    } else {
                        moov_offset + moov_size
                    };
                    let end = if moov_end == 0 {
                        0
                    } else if moov_end < content_length {
                        moov_end - 1
                    } else {
                        content_length - 1
                    };
                    ranges.push((0, end));
                    proof {
                        assert(ranges@ =~= spec_warmup_ranges(
                            header@,
                            content_length,
                            chunk_size,
                        ));
                    }
                },
                None => {
                    ranges.push((0, head_end));
                    if content_length > chunk_size {
                        ranges.push((content_length - chunk_size, content_length - 1));
                    }
                    proof {
                        assert(ranges@ =~= spec_warmup_ranges(
                            header@,
                            content_length,
                            chunk_size,
                        ));
                    }
                },
            }
        },
        ContainerFormat::Matroska | ContainerFormat::TransportStream => {
            ranges.push((0, head_end));
            proof {
                assert(ranges@ =~= spec_warmup_ranges(header@, content_length, chunk_size));
            }
        },
        _ => {
            ranges.push((0, head_end));
            if content_length > chunk_size {
                ranges.push((content_length - chunk_size, content_length - 1));
            }
            proof {
                assert(ranges@ =~= spec_warmup_ranges(header@, content_length, chunk_size));
            }
        },
    }
    ranges
}

/// Chunk indices `[first, past)` covering the inclusive byte range
/// `(range_start, range_end)`, clamped to the chunk grid.
pub fn warmup_chunk_span(
    range_start: u64,
    range_end: u64,
    chunk_size: u64,
    total_chunks: usize,
) -> (r: (usize, usize))
    requires
        chunk_size > 0,
    ensures
        r.0 == (if (range_start as int / chunk_size as int) < total_chunks as int {
            range_start as int / chunk_size as int
        } else {
            total_chunks as int
        }),
        r.1 == (if (range_end as int / chunk_size as int + 1) < total_chunks as int {
            range_end as int / chunk_size as int + 1
        } else {
            total_chunks as int
        }),
{
    let first_u64 = range_start / chunk_size;
    let first = if first_u64 < total_chunks as u64 {
        first_u64 as usize
    } else {
        total_chunks
    };
    let q = range_end / chunk_size;
    let past = if q < total_chunks as u64 {
        let p = q + 1;
        if p < total_chunks as u64 {
            p as usize
        } else {
            total_chunks
        }
    } else {
        total_chunks
    };
    (first, past)
}

} // verus!
