//! Container-format detection from header bytes, and the top-level MP4
//! box scan used by the warmup planner.
use vstd::prelude::*;

verus! {

/// Media container formats the warmup planner distinguishes.
#[derive(Clone, Copy, Debug, PartialEq, Eq, Structural)]
pub enum ContainerFormat {
    Mp4,
    Matroska,
    TransportStream,
    Iso9660,
    Udf,
    Unknown,
}

/// MP4/MOV: bytes 4..8 are "ftyp".
pub open spec fn spec_is_mp4(h: Seq<u8>) -> bool {
    h.len() >= 8 && h[4] == 0x66 && h[5] == 0x74 && h[6] == 0x79 && h[7] == 0x70
}

/// Matroska/WebM: EBML magic at offset 0.
pub open spec fn spec_is_matroska(h: Seq<u8>) -> bool {
    h.len() >= 4 && h[0] == 0x1A && h[1] == 0x45 && h[2] == 0xDF && h[3] == 0xA3
}

/// MPEG-TS: sync byte 0x47 at offsets 0 and 188.
pub open spec fn spec_is_transport_stream(h: Seq<u8>) -> bool {
    h.len() > 188 && h[0] == 0x47 && h[188] == 0x47
}

/// The format `detect_container` reports for a header.
pub open spec fn spec_detect_container(h: Seq<u8>) -> ContainerFormat {
    if spec_is_mp4(h) {
        ContainerFormat::Mp4
    } else if spec_is_matroska(h) {
        ContainerFormat::Matroska
    } else if spec_is_transport_stream(h) {
        ContainerFormat::TransportStream
    } else {
        ContainerFormat::Unknown
    }
}

/// Detect the container format from the file's first bytes.
pub fn detect_container(header: &[u8]) -> (r: ContainerFormat)
    ensures
        r == spec_detect_container(header@),
{
    let len = header.len();
    if len >= 8 && header[4] == 0x66 && header[5] == 0x74 && header[6] == 0x79 && header[7]
        == 0x70 {
        return ContainerFormat::Mp4;
    }
    if len >= 4 && header[0] == 0x1A && header[1] == 0x45 && header[2] == 0xDF && header[3]
        == 0xA3 {
        return ContainerFormat::Matroska;
    }
    if len > 188 && header[0] == 0x47 && header[188] == 0x47 {
        return ContainerFormat::TransportStream;
    }
    ContainerFormat::Unknown
}

/// ISO 9660: "CD001" at offset 1 of the volume descriptor sector.
pub open spec fn spec_is_iso9660(d: Seq<u8>) -> bool {
    d.len() > 5 && d[1] == 0x43 && d[2] == 0x44 && d[3] == 0x30 && d[4] == 0x30 && d[5] == 0x31
}

/// UDF: "BEA01", "NSR02" or "NSR03" at offset 1 of the descriptor sector.
pub open spec fn spec_is_udf(d: Seq<u8>) -> bool {
    d.len() > 5 && ((d[1] == 0x42 && d[2] == 0x45 && d[3] == 0x41 && d[4] == 0x30 && d[5]
        == 0x31) || (d[1] == 0x4E && d[2] == 0x53 && d[3] == 0x52 && d[4] == 0x30 && (d[5] == 0x32
        || d[5] == 0x33)))
}

/// Classify the 2048-byte volume-descriptor sector read at byte offset
/// 32768: ISO 9660, UDF, or neither.
pub fn classify_volume_descriptor(data: &[u8]) -> (r: ContainerFormat)
    ensures
        r == ContainerFormat::Iso9660 <==> spec_is_iso9660(data@),
        r == ContainerFormat::Udf <==> (!spec_is_iso9660(data@) && spec_is_udf(data@)),
        r == ContainerFormat::Unknown <==> (!spec_is_iso9660(data@) && !spec_is_udf(data@)),
{
    let len = data.len();
    if len > 5 && data[1] == 0x43 && data[2] == 0x44 && data[3] == 0x30 && data[4] == 0x30
        && data[5] == 0x31 {
        return ContainerFormat::Iso9660;
    }
    if len > 5 && data[1] == 0x42 && data[2] == 0x45 && data[3] == 0x41 && data[4] == 0x30
        && data[5] == 0x31 {
        return ContainerFormat::Udf;
    }
    if len > 5 && data[1] == 0x4E && data[2] == 0x53 && data[3] == 0x52 && data[4] == 0x30 && (
    data[5] == 0x32 || data[5] == 0x33) {
        return ContainerFormat::Udf;
    }
    ContainerFormat::Unknown
}

/// Big-endian 32-bit value at `pos`.
pub open spec fn spec_be32(h: Seq<u8>, pos: int) -> int
    recommends
        0 <= pos,
        pos + 4 <= h.len(),
{
    h[pos] * 0x1000000 + h[pos + 1] * 0x10000 + h[pos + 2] * 0x100 + h[pos + 3]
}

/// Big-endian 64-bit value at `pos`.
pub open spec fn spec_be64(h: Seq<u8>, pos: int) -> int
    recommends
        0 <= pos,
        pos + 8 <= h.len(),
{
    h[pos] * 0x100000000000000 + h[pos + 1] * 0x1000000000000 + h[pos + 2] * 0x10000000000 + h[pos
        + 3] * 0x100000000 + h[pos + 4] * 0x1000000 + h[pos + 5] * 0x10000 + h[pos + 6] * 0x100
        + h[pos + 7]
}

/// Bytes 4..8 of the box at `off` spell "moov".
pub open spec fn spec_is_moov_at(h: Seq<u8>, off: int) -> bool
    recommends
        0 <= off,
        off + 8 <= h.len(),
{
    h[off + 4] == 0x6D && h[off + 5] == 0x6F && h[off + 6] == 0x6F && h[off + 7] == 0x76
}

/// Top-level MP4 box scan from `offset`: walk 32-bit sizes (1 means a
/// 64-bit extended size at bytes 8..16, 0 means "to end of file") and
/// report the offset and size of the first "moov" box wholly announced
/// inside the header, if any.
pub open spec fn spec_moov_scan(h: Seq<u8>, offset: int) -> Option<(int, int)>
    decreases h.len() - offset,
{
    if offset < 0 || offset + 8 > h.len() {
        None
    } else {
        let size32 = spec_be32(h, offset);
        if size32 == 1 && offset + 16 > h.len() {
            None
        } else {
            let atom_size = if size32 == 1 {
                spec_be64(h, offset + 8)
            } else if size32 == 0 {
                h.len() - offset
            } else {
                size32
            };
            if spec_is_moov_at(h, offset) {
                Some((offset, atom_size))
            } else if atom_size == 0 {
                None
            } else if offset + atom_size + 8 > h.len() {
                None
            } else {
                spec_moov_scan(h, offset + atom_size)
            }
        }
    }
}

/// Scan the header's top-level MP4 boxes for a "moov" box.
/// Returns its byte offset and announced size if one is found.
pub fn find_moov_box(header: &[u8]) -> (r: Option<(u64, u64)>)
    ensures
        r is Some <==> spec_moov_scan(header@, 0) is Some,
        r matches Some(p) ==> spec_moov_scan(header@, 0) == Some((p.0 as int, p.1 as int)),
{
    let len = header.len();
    let mut offset: usize = 0;
    loop
        invariant
            len == header@.len(),
            offset <= len,
            spec_moov_scan(header@, 0) == spec_moov_scan(header@, offset as int),
        decreases len - offset,
    {
        if len - offset < 8 {
            return None;
        }
        let pos = offset;
        let size32: u64 = (header[pos] as u64) * 0x1000000 + (header[pos + 1] as u64) * 0x10000 + (
        header[pos + 2] as u64) * 0x100 + (header[pos + 3] as u64);
        let atom_size: u64 = if size32 == 1 {
            if len - offset < 16 {
                return None;
            }
            (header[pos + 8] as u64) * 0x100000000000000 + (header[pos + 9] as u64)
                * 0x1000000000000 + (header[pos + 10] as u64) * 0x10000000000 + (header[pos
                + 11] as u64) * 0x100000000 + (header[pos + 12] as u64) * 0x1000000 + (header[pos
                + 13] as u64) * 0x10000 + (header[pos + 14] as u64) * 0x100 + (header[pos
                + 15] as u64)
        } else if size32 == 0 {
            (len - offset) as u64
        } else {
            size32
        };
        let is_moov = header[pos + 4] == 0x6D && header[pos + 5] == 0x6F && header[pos + 6] == 0x6F
            && header[pos + 7] == 0x76;
        if is_moov {
            return Some((offset as u64, atom_size));
        }
        if atom_size == 0 {
            return None;
        }
        if atom_size > (len - offset) as u64 {
            return None;
        }
        offset = offset + atom_size as usize;
    }
}

} // verus!
