//! Width and height of a PNG or JPEG image, read from its header without
//! decoding the pixels.

use vstd::prelude::*;

verus! {

pub open spec fn be16(a: u8, b: u8) -> u32 {
    ((a as u32) * 256 + (b as u32)) as u32
}

pub open spec fn be32(a: u8, b: u8, c: u8, d: u8) -> nat {
    (((a as nat) * 256 + (b as nat)) * 256 + (c as nat)) * 256 + (d as nat)
}

/// A JPEG start-of-frame marker: SOF0 to SOF15, without DHT, JPG and DAC.
pub open spec fn is_frame_marker(m: u8) -> bool {
    0xC0 <= m <= 0xCF && m != 0xC4 && m != 0xC8 && m != 0xCC
}

/// The JPEG segments are walked from `i`: a byte other than `0xFF` is
/// skipped; a frame marker gives the size; any other segment is skipped by
/// its length. The walk stops when fewer than ten bytes are left.
pub open spec fn jpeg_scan(b: Seq<u8>, i: int) -> Option<(u32, u32)>
    decreases (if i <= b.len() {
        b.len() - i
    } else {
        0
    }),
{
    if 0 <= i && i + 9 < b.len() {
        if b[i] != 0xFF {
            jpeg_scan(b, i + 1)
        } else if is_frame_marker(b[i + 1]) {
            Some((be16(b[i + 7], b[i + 8]), be16(b[i + 5], b[i + 6])))
        } else {
            jpeg_scan(b, i + 2 + be16(b[i + 2], b[i + 3]))
        }
    } else {
        None
    }
}

/// Width and height stated by the header of a PNG or JPEG file.
pub open spec fn dimensions(b: Seq<u8>) -> Option<(u32, u32)> {
    if b.len() > 24 && b[0] == 0x89 && b[1] == 0x50 && b[2] == 0x4E && b[3] == 0x47 {
        Some((be32(b[16], b[17], b[18], b[19]) as u32, be32(b[20], b[21], b[22], b[23]) as u32))
    } else if b.len() > 4 && b[0] == 0xFF && b[1] == 0xD8 {
        jpeg_scan(b, 2)
    } else {
        None
    }
}

fn be32_exec(a: u8, b: u8, c: u8, d: u8) -> (v: u32)
    ensures
        v as nat == be32(a, b, c, d),
{
    let v: u64 = (((a as u64) * 256 + (b as u64)) * 256 + (c as u64)) * 256 + (d as u64);
    assert(be32(a, b, c, d) < 0x1_0000_0000) by (nonlinear_arith)
        requires
            a < 256,
            b < 256,
            c < 256,
            d < 256,
    ;
    v as u32
}

/// Width and height from the header of a PNG (its IHDR chunk) or a JPEG
/// (its first start-of-frame segment); `None` for anything else.
pub fn image_dimensions(b: &Vec<u8>) -> (size: Option<(u32, u32)>)
    requires
        b.len() <= isize::MAX,
    ensures
        size == dimensions(b@),
{
    if b.len() > 24 && b[0] == 0x89 && b[1] == 0x50 && b[2] == 0x4E && b[3] == 0x47 {
        let w = be32_exec(b[16], b[17], b[18], b[19]);
        let h = be32_exec(b[20], b[21], b[22], b[23]);
        return Some((w, h));
    }
    if b.len() > 4 && b[0] == 0xFF && b[1] == 0xD8 {
        let mut i: usize = 2;
        loop
            invariant
                2 <= i <= b.len(),
                b.len() <= isize::MAX,
                jpeg_scan(b@, 2) == jpeg_scan(b@, i as int),
                dimensions(b@) == jpeg_scan(b@, 2),
            decreases b.len() - i,
        {
            if b.len() - i <= 9 {
                assert(jpeg_scan(b@, i as int) is None);
                return None;
            }
            if b[i] != 0xFF {
                i = i + 1;
                continue;
            }
            let marker = b[i + 1];
            if 0xC0 <= marker && marker <= 0xCF && marker != 0xC4 && marker != 0xC8 && marker
                != 0xCC {
                let h = (b[i + 5] as u32) * 256 + (b[i + 6] as u32);
                let w = (b[i + 7] as u32) * 256 + (b[i + 8] as u32);
                return Some((w, h));
            }
            let len = (b[i + 2] as usize) * 256 + (b[i + 3] as usize);
            if len + 2 > b.len() - i {
                assert(jpeg_scan(b@, i + 2 + len) is None);
                assert(jpeg_scan(b@, i as int) == jpeg_scan(b@, i + 2 + len));
                return None;
            }
            i = i + 2 + len;
        }
    }
    None
}

proof fn lemma_scan_shifted(b1: Seq<u8>, b2: Seq<u8>, s: int, i: int)
    requires
        s >= 0,
        i >= 2,
        b1.len() == b2.len() + s,
        forall|j: int| 2 <= j < b2.len() ==> b1[j + s] == #[trigger] b2[j],
    ensures
        jpeg_scan(b1, i + s) == jpeg_scan(b2, i),
    decreases b2.len() - i,
{
    if i + 9 < b2.len() {
        assert(b1[i + s] == b2[i]);
        assert(b1[i + s + 1] == b2[i + 1]);
        assert(b1[i + s + 2] == b2[i + 2]);
        assert(b1[i + s + 3] == b2[i + 3]);
        assert(b1[i + s + 5] == b2[i + 5]);
        assert(b1[i + s + 6] == b2[i + 6]);
        assert(b1[i + s + 7] == b2[i + 7]);
        assert(b1[i + s + 8] == b2[i + 8]);
        if b2[i] != 0xFF {
            lemma_scan_shifted(b1, b2, s, i + 1);
        } else if !is_frame_marker(b2[i + 1]) {
            let n = be16(b2[i + 2], b2[i + 3]);
            assert(i + s + 2 + n == (i + 2 + n) + s);
            if i + 2 + n < b2.len() {
                lemma_scan_shifted(b1, b2, s, i + 2 + n);
            }
        }
    }
}

/// A JPEG segment that is not a frame header is skipped whole, by the length
/// it declares: whatever its payload holds (an embedded thumbnail's frame
/// header among others), the size read is the one the rest of the file
/// gives, as if the segment were not there.
pub proof fn other_segments_are_skipped_whole(marker: u8, hi: u8, lo: u8, payload: Seq<u8>, rest: Seq<u8>)
    requires
        !is_frame_marker(marker),
        marker != 0xFF,
        (hi as int) * 256 + (lo as int) >= 2,
        payload.len() == (hi as int) * 256 + (lo as int) - 2,
    ensures
        dimensions(seq![0xFFu8, 0xD8u8, 0xFFu8, marker, hi, lo] + payload + rest) == dimensions(
            seq![0xFFu8, 0xD8u8] + rest,
        ),
{
    let b1 = seq![0xFFu8, 0xD8u8, 0xFFu8, marker, hi, lo] + payload + rest;
    let b2 = seq![0xFFu8, 0xD8u8] + rest;
    let s: int = 4 + payload.len() as int;
    assert(b1[0] == 0xFF && b1[1] == 0xD8 && b1[2] == 0xFF && b1[3] == marker && b1[4] == hi && b1[5] == lo);
    assert(b2[0] == 0xFF && b2[1] == 0xD8);
    assert forall|j: int| 2 <= j < b2.len() implies b1[j + s] == #[trigger] b2[j] by {
        assert(b2[j] == rest[j - 2]);
        assert(b1[j + s] == rest[j - 2]);
    }
    lemma_scan_shifted(b1, b2, s, 2);
    assert(be16(hi, lo) == (hi as int) * 256 + (lo as int));
    if 2 + 9 < b1.len() {
        assert(jpeg_scan(b1, 2) == jpeg_scan(b1, 2 + 2 + be16(b1[4], b1[5])));
    }
    if b2.len() <= 4 {
        assert(jpeg_scan(b2, 2) is None);
    }
}

/// The four big-endian bytes of `v`.
pub open spec fn be_bytes(v: u32) -> Seq<u8> {
    seq![(v / 0x1000000) as u8, ((v / 0x10000) % 256) as u8, ((v / 0x100) % 256) as u8, (v % 256) as u8]
}

proof fn lemma_be32_of_bytes(v: u32)
    ensures
        be32(be_bytes(v)[0], be_bytes(v)[1], be_bytes(v)[2], be_bytes(v)[3]) == v,
{
    let a = v / 0x1000000;
    let b = (v / 0x10000) % 256;
    let c = (v / 0x100) % 256;
    let d = v % 256;
    assert(((a * 256 + b) * 256 + c) * 256 + d == v) by (nonlinear_arith)
        requires
            a == v / 0x1000000,
            b == (v / 0x10000) % 256,
            c == (v / 0x100) % 256,
            d == v % 256,
    ;
}

/// A PNG gives the width and height its header block stores, big-endian,
/// at bytes 16 and 20, whatever the other header bytes and the rest hold.
pub proof fn png_sizes_are_read_from_the_header(head: Seq<u8>, width: u32, height: u32, rest: Seq<u8>)
    requires
        head.len() == 12,
        rest.len() >= 1,
    ensures
        dimensions(seq![0x89u8, 0x50u8, 0x4Eu8, 0x47u8] + head + be_bytes(width) + be_bytes(height) + rest) == Some(
            (width, height),
        ),
{
    let b = seq![0x89u8, 0x50u8, 0x4Eu8, 0x47u8] + head + be_bytes(width) + be_bytes(height) + rest;
    assert(b[0] == 0x89 && b[1] == 0x50 && b[2] == 0x4E && b[3] == 0x47);
    assert(b[16] == be_bytes(width)[0] && b[17] == be_bytes(width)[1] && b[18] == be_bytes(width)[2] && b[19]
        == be_bytes(width)[3]);
    assert(b[20] == be_bytes(height)[0] && b[21] == be_bytes(height)[1] && b[22] == be_bytes(height)[2] && b[23]
        == be_bytes(height)[3]);
    lemma_be32_of_bytes(width);
    lemma_be32_of_bytes(height);
}

/// A JPEG whose first segment after the start marker is a frame header
/// gives the width and height that header stores (height first, then
/// width, each on two big-endian bytes).
pub proof fn jpeg_frame_sizes_are_read(marker: u8, len_hi: u8, len_lo: u8, precision: u8, height: u16, width: u16, rest: Seq<u8>)
    requires
        is_frame_marker(marker),
        rest.len() >= 1,
    ensures
        dimensions(
            seq![
                0xFFu8,
                0xD8u8,
                0xFFu8,
                marker,
                len_hi,
                len_lo,
                precision,
                (height / 256) as u8,
                (height % 256) as u8,
                (width / 256) as u8,
                (width % 256) as u8,
            ] + rest,
        ) == Some((width as u32, height as u32)),
{
    let b = seq![
        0xFFu8,
        0xD8u8,
        0xFFu8,
        marker,
        len_hi,
        len_lo,
        precision,
        (height / 256) as u8,
        (height % 256) as u8,
        (width / 256) as u8,
        (width % 256) as u8,
    ] + rest;
    assert(b[0] == 0xFF && b[1] == 0xD8 && b[2] == 0xFF && b[3] == marker);
    assert(b[7] == (height / 256) as u8 && b[8] == (height % 256) as u8);
    assert(b[9] == (width / 256) as u8 && b[10] == (width % 256) as u8);
    assert(be16(b[7], b[8]) == height as u32);
    assert(be16(b[9], b[10]) == width as u32);
}

} // verus!
