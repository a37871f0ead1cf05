//! The chunk envelope: `magic:u16, version:u32, payload_len:u32` followed by
//! a DEFLATE-compressed record stream, with a hard ceiling enforced on both
//! the declared payload length and the decompressed stream.
//!
//! Sealing a chunk compresses the record stream and frames it; opening one
//! validates the magic exactly, rejects an unknown version, bounds-checks the
//! declared payload length against the ceiling before anything is
//! decompressed, and bounds-checks the decompressed stream against the same
//! ceiling.

use vstd::prelude::*;

use crate::bytes::{
    dec_u16_at,
    dec_u32_at,
    get_u16,
    get_u32,
    lemma_subrange_in_prefix,
    put_u16,
    put_u32,
};
use crate::errors::{LoadError, SaveError};

use std::io::Read;

verus! {

/// The one format version this crate writes and reads.
pub const CHUNK_VERSION: u32 = 1;

/// Bytes of the frame header: magic, version, payload length.
pub const HEADER_LEN: usize = 10;

/// What flate2's DEFLATE compressor produces for a stream, at the default
/// level. The result depends on the input bytes alone.
pub uninterp spec fn deflate_of(s: Seq<u8>) -> Seq<u8>;

/// What flate2's DEFLATE decompressor recovers from a byte sequence: the
/// decompressed stream, or nothing where the bytes are not a valid DEFLATE
/// stream. The result depends on the input bytes alone.
pub uninterp spec fn inflate_of(s: Seq<u8>) -> Option<Seq<u8>>;

/// Relies on flate2::read::DeflateEncoder: compresses the whole buffer in
/// one pass; compressing from an in-memory slice cannot fail, and
/// decompressing the result recovers the input exactly (DEFLATE is
/// lossless).
#[verifier::external_body]
pub(crate) fn deflate(data: &Vec<u8>) -> (r: Vec<u8>)
    ensures
        r@ == deflate_of(data@),
        inflate_of(r@) == Some(data@),
{
    let mut out = Vec::new();
    let mut enc = flate2::read::DeflateEncoder::new(&data[..], flate2::Compression::default());
    enc.read_to_end(&mut out).unwrap();
    out
}

/// Relies on flate2::read::DeflateDecoder: decompresses the whole buffer in
/// one pass, failing exactly where the bytes are not a valid DEFLATE stream.
#[verifier::external_body]
pub(crate) fn inflate(data: &Vec<u8>) -> (r: Result<Vec<u8>, LoadError>)
    ensures
        match r {
            Ok(out) => inflate_of(data@) == Some(out@),
            Err(e) => inflate_of(data@) is None && e == LoadError::Serialize,
        },
{
    let mut out = Vec::new();
    let mut dec = flate2::read::DeflateDecoder::new(&data[..]);
    match dec.read_to_end(&mut out) {
        Ok(_) => Ok(out),
        Err(_) => Err(LoadError::Serialize),
    }
}

// ---------------------------------------------------------------------------
// The frame header.
// ---------------------------------------------------------------------------

pub open spec fn frame_magic(s: Seq<u8>) -> u16 {
    dec_u16_at(s, 0)
}

pub open spec fn frame_version(s: Seq<u8>) -> u32 {
    dec_u32_at(s, 2)
}

pub open spec fn frame_payload_len(s: Seq<u8>) -> u32 {
    dec_u32_at(s, 6)
}

/// Header validation: the exact error each malformed header is rejected
/// with, or the declared payload length where the header is acceptable.
/// Nothing here looks past the header, so a chunk whose declared length
/// exceeds the ceiling is rejected before any payload byte is touched and
/// before any decompression is attempted.
pub open spec fn spec_check_header(s: Seq<u8>, magic: u16, ceiling: u32) -> Result<
    u32,
    LoadError,
> {
    if s.len() < HEADER_LEN {
        Err(LoadError::Serialize)
    } else if frame_magic(s) != magic {
        Err(LoadError::WrongMagic(frame_magic(s)))
    } else if frame_version(s) != CHUNK_VERSION {
        Err(LoadError::Version(frame_version(s)))
    } else if frame_payload_len(s) > ceiling {
        Err(LoadError::Corrupted(frame_payload_len(s)))
    } else {
        Ok(frame_payload_len(s))
    }
}

/// The record stream a whole chunk opens to, or the exact error it is
/// rejected with: header errors first, then a payload shorter than declared,
/// then an undecodable payload, then a decompressed stream past the ceiling.
pub open spec fn spec_open_chunk(s: Seq<u8>, magic: u16, ceiling: u32) -> Result<
    Seq<u8>,
    LoadError,
> {
    match spec_check_header(s, magic, ceiling) {
        Err(e) => Err(e),
        Ok(plen) => if s.len() < HEADER_LEN + plen {
            Err(LoadError::Serialize)
        } else {
            match inflate_of(s.subrange(HEADER_LEN as int, HEADER_LEN + plen)) {
                None => Err(LoadError::Serialize),
                Some(stream) => if stream.len() > ceiling {
                    Err(LoadError::SizeLimit)
                } else {
                    Ok(stream)
                },
            }
        },
    }
}

/// Validates a chunk header read ahead of its payload and hands back the
/// payload length that still has to be read.
pub fn check_chunk_header(data: &Vec<u8>, magic: u16, ceiling: u32) -> (r: Result<u32, LoadError>)
    ensures
        r == spec_check_header(data@, magic, ceiling),
{
    if data.len() < HEADER_LEN {
        return Err(LoadError::Serialize);
    }
    let m = get_u16(data, 0);
    if m != magic {
        return Err(LoadError::WrongMagic(m));
    }
    let v = get_u32(data, 2);
    if v != CHUNK_VERSION {
        return Err(LoadError::Version(v));
    }
    let plen = get_u32(data, 6);
    if plen > ceiling {
        return Err(LoadError::Corrupted(plen));
    }
    Ok(plen)
}

/// Opens a whole chunk: validates the header, then decompresses the payload
/// and holds the decompressed stream to the same ceiling.
pub fn open_chunk(data: &Vec<u8>, magic: u16, ceiling: u32) -> (r: Result<Vec<u8>, LoadError>)
    ensures
        match r {
            Ok(stream) => spec_open_chunk(data@, magic, ceiling) == Ok::<_, LoadError>(stream@),
            Err(e) => spec_open_chunk(data@, magic, ceiling) == Err::<Seq<u8>, _>(e),
        },
{
    let plen = match check_chunk_header(data, magic, ceiling) {
        Ok(p) => p,
        Err(e) => {
            return Err(e);
        },
    };
    let plen_usize = plen as usize;
    if data.len() - HEADER_LEN < plen_usize {
        return Err(LoadError::Serialize);
    }
    let mut payload: Vec<u8> = Vec::new();
    let mut i: usize = HEADER_LEN;
    let stop = HEADER_LEN + plen_usize;
    while i < stop
        invariant
            HEADER_LEN <= i <= stop,
            stop == HEADER_LEN + plen,
            stop <= data@.len(),
            payload@ == data@.subrange(HEADER_LEN as int, i as int),
        decreases stop - i,
    {
        let b = data[i];
        payload.push(b);
        proof {
            assert(payload@ =~= data@.subrange(HEADER_LEN as int, i + 1));
        }
        i = i + 1;
    }
    let stream = match inflate(&payload) {
        Ok(s) => s,
        Err(e) => {
            return Err(e);
        },
    };
    if stream.len() > ceiling as usize {
        return Err(LoadError::SizeLimit);
    }
    Ok(stream)
}

/// Compresses a finished record stream and frames it. On success the
/// produced bytes are a chunk that `open_chunk` accepts and opens back to
/// exactly `stream`; where even the compressed payload would pass the
/// ceiling, the save is refused with the compressed size, so a chunk that is
/// too large is never written, not even truncated.
pub fn seal_chunk(stream: &Vec<u8>, magic: u16, ceiling: u32) -> (r: Result<Vec<u8>, SaveError>)
    requires
        stream@.len() <= ceiling,
    ensures
        deflate_of(stream@).len() <= ceiling ==> {
            &&& r is Ok
            &&& spec_open_chunk(r->Ok_0@, magic, ceiling) == Ok::<_, LoadError>(stream@)
            &&& r->Ok_0@.len() == HEADER_LEN + deflate_of(stream@).len()
        },
        deflate_of(stream@).len() > ceiling ==> r == Err::<Vec<u8>, _>(
            SaveError::SizeLimit(deflate_of(stream@).len() as u64),
        ),
{
    let mut payload = deflate(stream);
    if payload.len() > ceiling as usize {
        return Err(SaveError::SizeLimit(payload.len() as u64));
    }
    let plen = payload.len() as u32;
    let mut buf: Vec<u8> = Vec::new();
    put_u16(&mut buf, magic);
    let ghost s1 = buf@;
    put_u32(&mut buf, CHUNK_VERSION);
    let ghost s2 = buf@;
    put_u32(&mut buf, plen);
    let ghost s3 = buf@;
    buf.append(&mut payload);
    proof {
        let b = buf@;
        assert(b.len() == HEADER_LEN + plen);
        assert(b.subrange(0, s3.len() as int) =~= s3);
        lemma_subrange_in_prefix(s3, b, 0, 2);
        lemma_subrange_in_prefix(s2, s3, 0, 2);
        lemma_subrange_in_prefix(s1, s2, 0, 2);
        assert(frame_magic(b) == magic);
        lemma_subrange_in_prefix(s3, b, 2, 6);
        lemma_subrange_in_prefix(s2, s3, 2, 6);
        assert(frame_version(b) == CHUNK_VERSION);
        lemma_subrange_in_prefix(s3, b, 6, 10);
        assert(frame_payload_len(b) == plen);
        assert(b.subrange(HEADER_LEN as int, HEADER_LEN + plen) =~= deflate_of(stream@));
        assert(spec_open_chunk(b, magic, ceiling) == Ok::<_, LoadError>(stream@));
    }
    Ok(buf)
}

} // verus!
