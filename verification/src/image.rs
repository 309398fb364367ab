//! The self-extracting installer image: a native launcher followed by a
//! metadata blob, a compressed payload, and a fixed trailer that makes the
//! file self-describing.
//!
//! Layout, front to back:
//! `launcher ++ metadata ++ u64_le(|metadata|) ++ payload ++ u64_le(|payload|) ++ magic`.
//! Both length fields must be non-zero; offsets are recovered from the end.

use vstd::prelude::*;

verus! {

use vstd::bytes::{
    lemma_auto_spec_u64_to_from_le_bytes, spec_u64_from_le_bytes, spec_u64_to_le_bytes,
    u64_from_le_bytes, u64_to_le_bytes,
};

use crate::errors::{DistError, ErrorKind};

/// Number of bytes in the trailing magic marker.
pub const MAGIC_LEN: usize = 10;

/// Number of bytes in each little-endian length field.
pub const LENGTH_FIELD_SIZE: usize = 8;

/// The trailing magic marker, `CONDADIST!` as bytes.
pub open spec fn spec_magic() -> Seq<u8> {
    seq![67u8, 79u8, 78u8, 68u8, 65u8, 68u8, 73u8, 83u8, 84u8, 33u8]
}

/// Executable copy of the magic marker.
pub fn magic_bytes() -> (r: Vec<u8>)
    ensures
        r@ == spec_magic(),
        r@.len() == MAGIC_LEN,
{
    let r: Vec<u8> = vec![67u8, 79u8, 78u8, 68u8, 65u8, 68u8, 73u8, 83u8, 84u8, 33u8];
    proof {
        assert(r@ =~= spec_magic());
    }
    r
}

/// The byte image assembled from a launcher, a metadata blob and a payload.
pub open spec fn spec_image(launcher: Seq<u8>, metadata: Seq<u8>, payload: Seq<u8>) -> Seq<u8> {
    launcher + metadata + spec_u64_to_le_bytes(metadata.len() as u64) + payload
        + spec_u64_to_le_bytes(payload.len() as u64) + spec_magic()
}

/// Concatenate launcher, metadata and payload into a self-extracting image.
pub fn assemble_image(launcher: &Vec<u8>, metadata: &Vec<u8>, payload: &Vec<u8>) -> (r: Vec<u8>)
    requires
        launcher@.len() + metadata@.len() + payload@.len() + 2 * LENGTH_FIELD_SIZE + MAGIC_LEN
            <= usize::MAX,
    ensures
        r@ == spec_image(launcher@, metadata@, payload@),
{
    proof {
        lemma_auto_spec_u64_to_from_le_bytes();
    }
    let mut out: Vec<u8> = Vec::new();
    append_all(&mut out, launcher);
    append_all(&mut out, metadata);
    let meta_len = u64_to_le_bytes(metadata.len() as u64);
    append_all(&mut out, &meta_len);
    append_all(&mut out, payload);
    let payload_len = u64_to_le_bytes(payload.len() as u64);
    append_all(&mut out, &payload_len);
    let magic = magic_bytes();
    append_all(&mut out, &magic);
    proof {
        assert(out@ =~= spec_image(launcher@, metadata@, payload@));
    }
    out
}

/// Append every byte of `src` to `dst`.
pub fn append_all(dst: &mut Vec<u8>, src: &Vec<u8>)
    requires
        old(dst)@.len() + src@.len() <= usize::MAX,
    ensures
        final(dst)@ == old(dst)@ + src@,
{
    let ghost orig = dst@;
    let mut i: usize = 0;
    while i < src.len()
        invariant
            i <= src@.len(),
            orig.len() + src@.len() <= usize::MAX,
            dst@ == orig + src@.subrange(0, i as int),
        decreases src@.len() - i,
    {
        dst.push(src[i]);
        i = i + 1;
        proof {
            assert(dst@ =~= orig + src@.subrange(0, i as int));
        }
    }
    proof {
        assert(dst@ =~= orig + src@);
    }
}

/// Where the three regions of a parsed image lie within the file.
#[derive(Clone, Copy, Debug, PartialEq, Eq, Structural)]
pub struct ImageLayout {
    /// Offset of the first metadata byte.
    pub metadata_start: usize,
    /// Length of the metadata blob in bytes.
    pub metadata_len: usize,
    /// Offset of the first payload byte.
    pub payload_start: usize,
    /// Length of the payload in bytes.
    pub payload_len: usize,
}

/// The image is long enough for a trailer and ends with the magic marker.
pub open spec fn spec_magic_ok(b: Seq<u8>) -> bool {
    &&& b.len() >= MAGIC_LEN + 2 * LENGTH_FIELD_SIZE
    &&& b.subrange(b.len() - MAGIC_LEN, b.len() as int) == spec_magic()
}

/// The payload length field, read from just before the magic marker.
pub open spec fn spec_payload_len(b: Seq<u8>) -> u64 {
    spec_u64_from_le_bytes(
        b.subrange(b.len() - MAGIC_LEN - LENGTH_FIELD_SIZE, b.len() - MAGIC_LEN),
    )
}

/// Offset of the first payload byte, counted back from the trailer.
pub open spec fn spec_payload_start(b: Seq<u8>) -> int {
    b.len() - MAGIC_LEN - LENGTH_FIELD_SIZE - spec_payload_len(b)
}

/// The metadata length field, read from just before the payload.
pub open spec fn spec_metadata_len(b: Seq<u8>) -> u64 {
    spec_u64_from_le_bytes(
        b.subrange(spec_payload_start(b) - LENGTH_FIELD_SIZE, spec_payload_start(b)),
    )
}

/// Offset of the first metadata byte, counted back from the payload.
pub open spec fn spec_metadata_start(b: Seq<u8>) -> int {
    spec_payload_start(b) - LENGTH_FIELD_SIZE - spec_metadata_len(b)
}

/// Every trailer check passes: the magic is present, both length fields are
/// non-zero, and neither offset underflows the file.
pub open spec fn spec_image_well_formed(b: Seq<u8>) -> bool {
    &&& spec_magic_ok(b)
    &&& spec_payload_len(b) != 0
    &&& spec_payload_start(b) >= LENGTH_FIELD_SIZE
    &&& spec_metadata_len(b) != 0
    &&& spec_metadata_start(b) >= 0
}

/// The layout a successful parse of `b` must report.
pub open spec fn spec_layout_of(b: Seq<u8>) -> ImageLayout {
    ImageLayout {
        metadata_start: spec_metadata_start(b) as usize,
        metadata_len: spec_metadata_len(b) as usize,
        payload_start: spec_payload_start(b) as usize,
        payload_len: spec_payload_len(b) as usize,
    }
}

/// Read the little-endian `u64` stored at `pos`.
fn read_u64_at(v: &Vec<u8>, pos: usize) -> (r: u64)
    requires
        pos + LENGTH_FIELD_SIZE <= v@.len(),
    ensures
        r == spec_u64_from_le_bytes(v@.subrange(pos as int, pos + LENGTH_FIELD_SIZE)),
{
    let n = v.len();
    let mut field: Vec<u8> = Vec::new();
    let mut i: usize = 0;
    while i < LENGTH_FIELD_SIZE
        invariant
            i <= LENGTH_FIELD_SIZE,
            n == v@.len(),
            pos + LENGTH_FIELD_SIZE <= v@.len(),
            field@ == v@.subrange(pos as int, pos + i),
        decreases LENGTH_FIELD_SIZE - i,
    {
        field.push(v[pos + i]);
        i = i + 1;
        proof {
            assert(field@ =~= v@.subrange(pos as int, pos + i));
        }
    }
    u64_from_le_bytes(field.as_slice())
}

/// Parse the trailer of a self-extracting image, recovering where the
/// metadata and the payload lie. Returns `ImageCorrupt` exactly when the
/// magic is absent, a length field is zero, or an offset underflows.
pub fn parse_image(image: &Vec<u8>) -> (r: Result<ImageLayout, DistError>)
    ensures
        r is Ok <==> spec_image_well_formed(image@),
        r matches Ok(layout) ==> layout == spec_layout_of(image@),
        r matches Err(e) ==> e.kind == ErrorKind::ImageCorrupt,
{
    let len = image.len();
    if len < MAGIC_LEN + 2 * LENGTH_FIELD_SIZE {
        return Err(DistError::new(
            ErrorKind::ImageCorrupt,
            String::from_str("installer payload is missing or corrupt"),
        ));
    }

    let magic = magic_bytes();
    let magic_start = len - MAGIC_LEN;
    let mut i: usize = 0;
    while i < MAGIC_LEN
        invariant
            i <= MAGIC_LEN,
            len == image@.len(),
            len >= MAGIC_LEN + 2 * LENGTH_FIELD_SIZE,
            magic_start == len - MAGIC_LEN,
            magic@ == spec_magic(),
            forall|j: int| 0 <= j < i ==> image@[magic_start + j] == spec_magic()[j],
        decreases MAGIC_LEN - i,
    {
        if image[magic_start + i] != magic[i] {
            return Err(DistError::new(
                ErrorKind::ImageCorrupt,
                String::from_str("installer payload marker mismatch; the installer may be corrupted"),
            ));
        }
        i = i + 1;
    }
    proof {
        assert(image@.subrange(len - MAGIC_LEN, len as int) =~= spec_magic());
    }

    let payload_len_pos = magic_start - LENGTH_FIELD_SIZE;
    let payload_len = read_u64_at(image, payload_len_pos);
    if payload_len == 0 {
        return Err(DistError::new(
            ErrorKind::ImageCorrupt,
            String::from_str("installer payload is empty"),
        ));
    }
    if payload_len > payload_len_pos as u64 {
        return Err(DistError::new(
            ErrorKind::ImageCorrupt,
            String::from_str("installer payload length exceeds executable size"),
        ));
    }
    let payload_start = payload_len_pos - (payload_len as usize);
    if payload_start < LENGTH_FIELD_SIZE {
        return Err(DistError::new(
            ErrorKind::ImageCorrupt,
            String::from_str("installer metadata footer is missing"),
        ));
    }

    let metadata_len_pos = payload_start - LENGTH_FIELD_SIZE;
    let metadata_len = read_u64_at(image, metadata_len_pos);
    if metadata_len == 0 {
        return Err(DistError::new(
            ErrorKind::ImageCorrupt,
            String::from_str("installer metadata is empty"),
        ));
    }
    if metadata_len > metadata_len_pos as u64 {
        return Err(DistError::new(
            ErrorKind::ImageCorrupt,
            String::from_str("installer metadata length exceeds executable size"),
        ));
    }
    let metadata_start = metadata_len_pos - (metadata_len as usize);

    Ok(ImageLayout {
        metadata_start,
        metadata_len: metadata_len as usize,
        payload_start,
        payload_len: payload_len as usize,
    })
}

/// Copy `count` bytes of `v` starting at `start`.
pub fn sub_bytes(v: &Vec<u8>, start: usize, count: usize) -> (r: Vec<u8>)
    requires
        start + count <= v@.len(),
    ensures
        r@ == v@.subrange(start as int, start + count),
{
    let n = v.len();
    let mut out: Vec<u8> = Vec::new();
    let mut i: usize = 0;
    while i < count
        invariant
            i <= count,
            n == v@.len(),
            start + count <= v@.len(),
            out@ == v@.subrange(start as int, start + i),
        decreases count - i,
    {
        out.push(v[start + i]);
        i = i + 1;
        proof {
            assert(out@ =~= v@.subrange(start as int, start + i));
        }
    }
    out
}

/// Round trip: an assembled image passes every trailer check, and parsing it
/// back recovers exactly the launcher, metadata and payload byte ranges it
/// was assembled from.
pub proof fn lemma_image_round_trip(launcher: Seq<u8>, metadata: Seq<u8>, payload: Seq<u8>)
    requires
        0 < metadata.len() <= u64::MAX,
        0 < payload.len() <= u64::MAX,
    ensures
        ({
            let b = spec_image(launcher, metadata, payload);
            &&& spec_image_well_formed(b)
            &&& spec_metadata_len(b) == metadata.len()
            &&& spec_payload_len(b) == payload.len()
            &&& b.subrange(0, spec_metadata_start(b)) == launcher
            &&& b.subrange(spec_metadata_start(b), spec_metadata_start(b) + spec_metadata_len(b))
                == metadata
            &&& b.subrange(spec_payload_start(b), spec_payload_start(b) + spec_payload_len(b))
                == payload
        }),
{
    lemma_auto_spec_u64_to_from_le_bytes();
    let b = spec_image(launcher, metadata, payload);
    let ll = launcher.len() as int;
    let ml = metadata.len() as int;
    let pl = payload.len() as int;
    assert(b.len() == ll + ml + 8 + pl + 8 + 10);
    assert(b.subrange(b.len() - MAGIC_LEN, b.len() as int) =~= spec_magic());
    assert(b.subrange(b.len() - MAGIC_LEN - LENGTH_FIELD_SIZE, b.len() - MAGIC_LEN)
        =~= spec_u64_to_le_bytes(payload.len() as u64));
    assert(spec_payload_len(b) == payload.len() as u64);
    assert(spec_payload_start(b) == ll + ml + 8);
    assert(b.subrange(spec_payload_start(b) - LENGTH_FIELD_SIZE, spec_payload_start(b))
        =~= spec_u64_to_le_bytes(metadata.len() as u64));
    assert(spec_metadata_len(b) == metadata.len() as u64);
    assert(spec_metadata_start(b) == ll);
    assert(b.subrange(0, spec_metadata_start(b)) =~= launcher);
    assert(b.subrange(spec_metadata_start(b), spec_metadata_start(b) + spec_metadata_len(b))
        =~= metadata);
    assert(b.subrange(spec_payload_start(b), spec_payload_start(b) + spec_payload_len(b))
        =~= payload);
}

} // verus!
