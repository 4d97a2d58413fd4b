//! Detection of animated images, which the optimizers do not handle.

use vstd::prelude::*;
use crate::formats::ImageFormat;
use crate::heic::heic_is_animated;
use crate::payloads::{code_only, ErrorPayload};

verus! {

/// The eight bytes every PNG file starts with.
pub open spec fn png_signature() -> Seq<u8> {
    seq![0x89u8, 0x50u8, 0x4eu8, 0x47u8, 0x0du8, 0x0au8, 0x1au8, 0x0au8]
}

/// The big-endian 32-bit number at `data[at..at + 4]`.
pub open spec fn be32(data: Seq<u8>, at: int) -> nat {
    (data[at] as nat) * 16777216 + (data[at + 1] as nat) * 65536 + (data[at + 2] as nat) * 256
        + (data[at + 3] as nat)
}

/// The little-endian 32-bit number at `data[at..at + 4]`.
pub open spec fn le32(data: Seq<u8>, at: int) -> nat {
    (data[at + 3] as nat) * 16777216 + (data[at + 2] as nat) * 65536 + (data[at + 1] as nat) * 256
        + (data[at] as nat)
}

/// Whether the four bytes at `data[at..at + 4]` are the ASCII letters `tag`.
pub open spec fn tag_at(data: Seq<u8>, at: int, tag: Seq<char>) -> bool {
    &&& data[at] as int == tag[0] as int
    &&& data[at + 1] as int == tag[1] as int
    &&& data[at + 2] as int == tag[2] as int
    &&& data[at + 3] as int == tag[3] as int
}

/// Walks the PNG chunks from `offset` (each: 4-byte big-endian length, 4-byte
/// type, data, 4-byte CRC) and says whether an `acTL` chunk comes before an
/// `IEND` chunk, the end of the data, or a chunk that runs past the end.
pub open spec fn png_chunks_animated(data: Seq<u8>, offset: nat) -> bool
    decreases data.len() - offset,
{
    if offset + 12 > data.len() {
        false
    } else if tag_at(data, offset + 4int, seq!['a', 'c', 'T', 'L']) {
        true
    } else if tag_at(data, offset + 4int, seq!['I', 'E', 'N', 'D']) {
        false
    } else {
        let next = offset + 12 + be32(data, offset as int);
        if next > data.len() {
            false
        } else {
            png_chunks_animated(data, next)
        }
    }
}

/// Whether PNG data is an animated PNG: it carries the PNG signature and an
/// animation control (`acTL`) chunk before its image end.
pub open spec fn spec_png_is_animated(data: Seq<u8>) -> bool {
    data.len() >= 8 && data.subrange(0, 8) == png_signature() && png_chunks_animated(data, 8)
}

/// Walks the RIFF chunks of a WebP file from `offset` (each: 4-byte type,
/// 4-byte little-endian size, data padded to an even length) and says whether
/// one of them marks animation: an `ANIM` or `ANMF` chunk, or a `VP8X` chunk
/// whose flags byte has the animation bit set.
pub open spec fn webp_chunks_animated(data: Seq<u8>, offset: nat) -> bool
    decreases data.len() - offset,
{
    if offset + 8 > data.len() {
        false
    } else if tag_at(data, offset as int, seq!['A', 'N', 'I', 'M']) || tag_at(
        data,
        offset as int,
        seq!['A', 'N', 'M', 'F'],
    ) {
        true
    } else if tag_at(data, offset as int, seq!['V', 'P', '8', 'X']) && le32(data, offset + 4int) >= 1
        && offset + 8 < data.len() && data[offset + 8int] & 0x02u8 != 0 {
        true
    } else {
        let next = offset + 8 + le32(data, offset + 4int) + le32(data, offset + 4int) % 2;
        if next > data.len() {
            false
        } else {
            webp_chunks_animated(data, next)
        }
    }
}

/// Whether data is an animated WebP file: a RIFF container of type WEBP with a
/// chunk that marks animation.
pub open spec fn spec_webp_is_animated(data: Seq<u8>) -> bool {
    &&& data.len() >= 12
    &&& tag_at(data, 0, seq!['R', 'I', 'F', 'F'])
    &&& tag_at(data, 8, seq!['W', 'E', 'B', 'P'])
    &&& webp_chunks_animated(data, 12)
}

/// A PNG file that starts with its `IHDR` chunk (13 bytes of header data and
/// a CRC) followed by `next`.
pub open spec fn png_after_header(ihdr: Seq<u8>, crc: Seq<u8>, next: Seq<u8>) -> Seq<u8> {
    png_signature() + seq![0u8, 0u8, 0u8, 13u8] + seq![0x49u8, 0x48u8, 0x44u8, 0x52u8] + ihdr + crc + next
}

/// An animation control chunk right after the header makes a PNG animated;
/// an image end right after it makes it static.
pub proof fn lemma_png_animation_chunk(ihdr: Seq<u8>, crc: Seq<u8>, len: Seq<u8>, rest: Seq<u8>)
    requires
        ihdr.len() == 13,
        crc.len() == 4,
        len.len() == 4,
        rest.len() >= 4,
    ensures
        spec_png_is_animated(png_after_header(ihdr, crc, len + seq![0x61u8, 0x63u8, 0x54u8, 0x4cu8] + rest)),
        !spec_png_is_animated(png_after_header(ihdr, crc, len + seq![0x49u8, 0x45u8, 0x4eu8, 0x44u8] + rest)),
{
    let actl = png_after_header(ihdr, crc, len + seq![0x61u8, 0x63u8, 0x54u8, 0x4cu8] + rest);
    let iend = png_after_header(ihdr, crc, len + seq![0x49u8, 0x45u8, 0x4eu8, 0x44u8] + rest);
    assert(actl.subrange(0, 8) =~= png_signature());
    assert(iend.subrange(0, 8) =~= png_signature());
    assert(actl[8] == 0u8 && actl[9] == 0u8 && actl[10] == 0u8 && actl[11] == 13u8);
    assert(iend[8] == 0u8 && iend[9] == 0u8 && iend[10] == 0u8 && iend[11] == 13u8);
    assert(actl[12] == 0x49u8 && actl[13] == 0x48u8 && actl[14] == 0x44u8 && actl[15] == 0x52u8);
    assert(iend[12] == 0x49u8 && iend[13] == 0x48u8 && iend[14] == 0x44u8 && iend[15] == 0x52u8);
    assert(be32(actl, 8) == 13);
    assert(be32(iend, 8) == 13);
    assert(actl[37] == 0x61u8 && actl[38] == 0x63u8 && actl[39] == 0x54u8 && actl[40] == 0x4cu8);
    assert(iend[37] == 0x49u8 && iend[38] == 0x45u8 && iend[39] == 0x4eu8 && iend[40] == 0x44u8);
    assert(tag_at(actl, 37, seq!['a', 'c', 'T', 'L']));
    assert(tag_at(iend, 37, seq!['I', 'E', 'N', 'D']));
    assert(!tag_at(iend, 37, seq!['a', 'c', 'T', 'L']));
    assert(png_chunks_animated(actl, 33));
    assert(!png_chunks_animated(iend, 33));
}

/// A WebP file whose only chunk is a ten-byte `VP8X` header: `RIFF`, any
/// size, `WEBP`, `VP8X`, size 10, the flags byte, and nine more bytes.
pub open spec fn single_vp8x_webp(riff_size: Seq<u8>, flags: u8, rest: Seq<u8>) -> Seq<u8> {
    seq![0x52u8, 0x49u8, 0x46u8, 0x46u8] + riff_size + seq![0x57u8, 0x45u8, 0x42u8, 0x50u8]
        + seq![0x56u8, 0x50u8, 0x38u8, 0x58u8] + seq![10u8, 0u8, 0u8, 0u8] + seq![flags] + rest
}

/// In a WebP file made of one `VP8X` header, only the animation bit (0x02) of
/// the flags marks animation: the alpha, ICC, EXIF and XMP bits never do.
pub proof fn lemma_vp8x_animation_bit(riff_size: Seq<u8>, flags: u8, rest: Seq<u8>)
    requires
        riff_size.len() == 4,
        rest.len() == 9,
    ensures
        spec_webp_is_animated(single_vp8x_webp(riff_size, flags, rest)) == (flags & 0x02u8 != 0),
{
    let data = single_vp8x_webp(riff_size, flags, rest);
    assert(data.len() == 30);
    assert(data[0] == 0x52u8 && data[1] == 0x49u8 && data[2] == 0x46u8 && data[3] == 0x46u8);
    assert(data[8] == 0x57u8 && data[9] == 0x45u8 && data[10] == 0x42u8 && data[11] == 0x50u8);
    assert(data[12] == 0x56u8 && data[13] == 0x50u8 && data[14] == 0x38u8 && data[15] == 0x58u8);
    assert(data[16] == 10u8 && data[17] == 0u8 && data[18] == 0u8 && data[19] == 0u8);
    assert(data[20] == flags);
    assert(le32(data, 16) == 10);
    assert(tag_at(data, 0, seq!['R', 'I', 'F', 'F']));
    assert(tag_at(data, 8, seq!['W', 'E', 'B', 'P']));
    assert(tag_at(data, 12, seq!['V', 'P', '8', 'X']));
    assert(!tag_at(data, 12, seq!['A', 'N', 'I', 'M']));
    assert(!tag_at(data, 12, seq!['A', 'N', 'M', 'F']));
    assert(!webp_chunks_animated(data, 30));
}

fn tag_matches(data: &[u8], at: usize, tag: [u8; 4]) -> (r: bool)
    requires
        at + 4 <= data.len(),
    ensures
        r == (data@[at as int] == tag[0] && data@[at + 1] == tag[1] && data@[at + 2] == tag[2]
            && data@[at + 3] == tag[3]),
{
    data[at] == tag[0] && data[at + 1] == tag[1] && data[at + 2] == tag[2] && data[at + 3] == tag[3]
}

fn read_be32(data: &[u8], at: usize) -> (r: u64)
    requires
        at + 4 <= data.len(),
    ensures
        r == be32(data@, at as int),
{
    (data[at] as u64) * 16777216 + (data[at + 1] as u64) * 65536 + (data[at + 2] as u64) * 256
        + (data[at + 3] as u64)
}

fn read_le32(data: &[u8], at: usize) -> (r: u64)
    requires
        at + 4 <= data.len(),
    ensures
        r == le32(data@, at as int),
{
    (data[at + 3] as u64) * 16777216 + (data[at + 2] as u64) * 65536 + (data[at + 1] as u64) * 256
        + (data[at] as u64)
}

pub fn png_is_animated(data: &[u8]) -> (r: bool)
    ensures
        r == spec_png_is_animated(data@),
{
    let signature: [u8; 8] = [0x89, 0x50, 0x4e, 0x47, 0x0d, 0x0a, 0x1a, 0x0a];
    assert(signature@ == png_signature());
    if data.len() < 8 {
        return false;
    }
    let mut k: usize = 0;
    while k < 8
        invariant
            k <= 8,
            data@.len() >= 8,
            signature@ == png_signature(),
            forall|j: int| 0 <= j < k ==> data@[j] == signature@[j],
        decreases 8 - k,
    {
        if data[k] != signature[k] {
            assert(data@.subrange(0, 8)[k as int] != png_signature()[k as int]);
            return false;
        }
        k = k + 1;
    }
    assert(data@.subrange(0, 8) =~= png_signature());

    let len = data.len();
    let mut offset: usize = 8;
    while len >= 12 && offset <= len - 12
        invariant
            len == data@.len(),
            8 <= offset <= len,
            spec_png_is_animated(data@) == png_chunks_animated(data@, offset as nat),
        decreases len - offset,
    {
        if tag_matches(data, offset + 4, [0x61, 0x63, 0x54, 0x4c]) {
            return true;
        }
        if tag_matches(data, offset + 4, [0x49, 0x45, 0x4e, 0x44]) {
            return false;
        }
        let chunk_len = read_be32(data, offset);
        let next: u128 = offset as u128 + 12 + chunk_len as u128;
        if next > len as u128 {
            return false;
        }
        offset = next as usize;
    }
    false
}

pub fn webp_is_animated(data: &[u8]) -> (r: bool)
    ensures
        r == spec_webp_is_animated(data@),
{
    if data.len() < 12 || !tag_matches(data, 0, [0x52, 0x49, 0x46, 0x46]) || !tag_matches(
        data,
        8,
        [0x57, 0x45, 0x42, 0x50],
    ) {
        return false;
    }
    let len = data.len();
    let mut offset: usize = 12;
    while offset <= len - 8
        invariant
            len == data@.len(),
            len >= 12,
            12 <= offset <= len,
            spec_webp_is_animated(data@) == webp_chunks_animated(data@, offset as nat),
        decreases len - offset,
    {
        let chunk_size = read_le32(data, offset + 4);
        if tag_matches(data, offset, [0x41, 0x4e, 0x49, 0x4d]) || tag_matches(
            data,
            offset,
            [0x41, 0x4e, 0x4d, 0x46],
        ) {
            return true;
        }
        if tag_matches(data, offset, [0x56, 0x50, 0x38, 0x58]) && chunk_size >= 1 && offset + 8 < len {
            let flags = data[offset + 8];
            if flags & 0x02 != 0 {
                return true;
            }
        }
        let next: u128 = offset as u128 + 8 + chunk_size as u128 + (chunk_size % 2) as u128;
        if next > len as u128 {
            return false;
        }
        offset = next as usize;
    }
    false
}

/// Whether an AVIF file's parse by `mp4parse` finds an image sequence. A
/// function of the bytes alone.
pub uninterp spec fn avif_sequence_found(data: Seq<u8>) -> bool;

/// `mp4parse::read_avif` in normal strictness over the bytes, and whether
/// the context it returns holds an image sequence (`false` where the parse
/// fails). Claimed: the result is the named value `avif_sequence_found` of
/// the bytes.
#[verifier::external_body]
fn avif_has_sequence(data: &[u8]) -> (r: bool)
    ensures
        r == avif_sequence_found(data@),
{
    let mut cursor = std::io::Cursor::new(data);
    match mp4parse::read_avif(&mut cursor, mp4parse::ParseStrictness::Normal) {
        Ok(context) => context.sequence.is_some(),
        Err(_) => false,
    }
}

/// Whether an AVIF file is an image sequence (animated).
pub fn avif_is_animated(data: &[u8]) -> (r: bool)
    ensures
        r == avif_sequence_found(data@),
{
    avif_has_sequence(data)
}

/// Whether the contents of a file of the given format are animated; formats
/// other than PNG, WebP and AVIF are read as not animated.
pub open spec fn spec_contents_animated(format: ImageFormat, data: Seq<u8>) -> bool {
    match format {
        ImageFormat::Png => spec_png_is_animated(data),
        ImageFormat::Webp => spec_webp_is_animated(data),
        ImageFormat::Avif => avif_sequence_found(data),
        _ => false,
    }
}

/// Whether the animation check of a format looks at the file's contents.
pub open spec fn spec_reads_contents(format: ImageFormat) -> bool {
    format == ImageFormat::Png || format == ImageFormat::Webp || format == ImageFormat::Avif
}

/// Whether `is_animated` needs the file's bytes for this format (the caller
/// reads the file only then, and passes an empty slice otherwise).
pub fn reads_contents(format: ImageFormat) -> (r: bool)
    ensures
        r == spec_reads_contents(format),
{
    match format {
        ImageFormat::Png | ImageFormat::Webp | ImageFormat::Avif => true,
        _ => false,
    }
}

/// Whether the image at `input`, whose bytes are `data` where the format's
/// check reads them, is animated.
pub fn is_animated(input: &str, format: ImageFormat, data: &[u8]) -> (r: Result<bool, ErrorPayload>)
    ensures
        r == Ok::<bool, ErrorPayload>(spec_contents_animated(format, data@)),
{
    match format {
        ImageFormat::Png => Ok(png_is_animated(data)),
        ImageFormat::Webp => Ok(webp_is_animated(data)),
        ImageFormat::Avif => Ok(avif_is_animated(data)),
        ImageFormat::Heic => heic_is_animated(input),
        _ => Ok(false),
    }
}

/// Refuses animated images.
pub fn ensure_not_animated(input: &str, format: ImageFormat, data: &[u8]) -> (r: Result<(), ErrorPayload>)
    ensures
        match r {
            Ok(_) => !spec_contents_animated(format, data@),
            Err(e) => spec_contents_animated(format, data@) && e@ == code_only("animatedNotSupported"@),
        },
{
    match is_animated(input, format, data) {
        Ok(true) => Err(ErrorPayload::animated_not_supported()),
        Ok(false) => Ok(()),
        Err(e) => Err(e),
    }
}

} // verus!
