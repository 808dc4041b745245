//! The framing of file chunks sent between peers that both support
//! compression: a flag byte, 1 for an LZ4 block with its size prepended and 0
//! for the raw bytes, then the payload. A receiver gets back exactly the bytes
//! that were read.

use vstd::prelude::*;

verus! {

#[verifier::external_type_specification]
#[verifier::external_body]
pub struct ExDecompressError(lz4_flex::block::DecompressError);

/// What `lz4_flex::compress_prepend_size` makes of `data`.
pub uninterp spec fn lz4_compress_spec(data: Seq<u8>) -> Seq<u8>;

/// What `lz4_flex::decompress_size_prepended` makes of `data`: the bytes, or
/// `None` where it refuses them.
pub uninterp spec fn lz4_decompress_spec(data: Seq<u8>) -> Option<Seq<u8>>;

/// `lz4_flex::compress_prepend_size`. Claims that the block is a function of
/// `data`, and that `decompress_size_prepended` gives `data` back, as the
/// crate documents for the pair.
#[verifier::external_body]
fn lz4_compress(data: &[u8]) -> (r: Vec<u8>)
    requires
        data@.len() <= u32::MAX,
    ensures
        r@ == lz4_compress_spec(data@),
        lz4_decompress_spec(r@) == Some(data@),
{
    lz4_flex::compress_prepend_size(data)
}

/// `lz4_flex::decompress_size_prepended`. Claims that the result is a
/// function of `data`.
#[verifier::external_body]
fn lz4_decompress(data: &[u8]) -> (r: Result<Vec<u8>, lz4_flex::block::DecompressError>)
    ensures
        match r {
            Ok(v) => lz4_decompress_spec(data@) == Some(v@),
            Err(_) => lz4_decompress_spec(data@) is None,
        },
{
    lz4_flex::decompress_size_prepended(data)
}

/// The flag of a compressed frame.
pub const FLAG_COMPRESSED: u8 = 1;

/// The flag of a raw frame.
pub const FLAG_RAW: u8 = 0;

/// Why a received frame was refused.
#[derive(Clone, Copy, Debug, PartialEq, Eq)]
pub enum ChunkError {
    /// The compressed payload is not an LZ4 block.
    Decompression,
}

/// The frame of the raw bytes `raw`.
pub open spec fn raw_frame_spec(raw: Seq<u8>) -> Seq<u8> {
    seq![FLAG_RAW] + raw
}

/// The frame of the LZ4 block `block`.
pub open spec fn compressed_frame_spec(block: Seq<u8>) -> Seq<u8> {
    seq![FLAG_COMPRESSED] + block
}

/// What a receiver that supports compression makes of `frame`: the payload
/// decompressed when the flag is 1, as it is otherwise.
pub open spec fn unframe_spec(frame: Seq<u8>) -> Option<Seq<u8>> {
    if frame[0] == FLAG_COMPRESSED {
        lz4_decompress_spec(frame.skip(1))
    } else {
        Some(frame.skip(1))
    }
}

fn framed(flag: u8, payload: &[u8]) -> (r: Vec<u8>)
    ensures
        r@ == seq![flag] + payload@,
{
    let mut r: Vec<u8> = Vec::new();
    r.push(flag);
    let mut i: usize = 0;
    while i < payload.len()
        invariant
            i <= payload@.len(),
            r@ == seq![flag] + payload@.take(i as int),
        decreases payload@.len() - i,
    {
        r.push(payload[i]);
        assert(payload@.take(i as int + 1) =~= payload@.take(i as int).push(payload@[i as int]));
        assert(seq![flag] + payload@.take(i as int + 1) =~= (seq![flag] + payload@.take(i as int)).push(
            payload@[i as int],
        ));
        i += 1;
    }
    assert(payload@.take(payload@.len() as int) =~= payload@);
    r
}

/// The LZ4 block of a chunk: the chunk compressed, its size prepended.
pub fn compress_chunk(raw: &[u8]) -> (r: Vec<u8>)
    requires
        raw@.len() <= u32::MAX,
    ensures
        r@ == lz4_compress_spec(raw@),
        lz4_decompress_spec(r@) == Some(raw@),
{
    lz4_compress(raw)
}

/// The frame that sends `raw` as it is.
pub fn raw_frame(raw: &[u8]) -> (r: Vec<u8>)
    ensures
        r@ == raw_frame_spec(raw@),
{
    framed(FLAG_RAW, raw)
}

/// The frame that sends the LZ4 block `block`.
pub fn compressed_frame(block: &[u8]) -> (r: Vec<u8>)
    ensures
        r@ == compressed_frame_spec(block@),
{
    framed(FLAG_COMPRESSED, block)
}

/// The bytes a received frame carries, for a receiver that supports
/// compression; a receiver that does not takes frames as they are.
pub fn unframe(frame: &[u8], compression_support: bool) -> (r: Result<Vec<u8>, ChunkError>)
    requires
        compression_support ==> frame@.len() > 0,
    ensures
        !compression_support ==> (r matches Ok(v) && v@ == frame@),
        compression_support ==> match r {
            Ok(v) => unframe_spec(frame@) == Some(v@),
            Err(e) => unframe_spec(frame@) is None && e == ChunkError::Decompression,
        },
{
    if !compression_support {
        let mut v: Vec<u8> = Vec::new();
        let mut i: usize = 0;
        while i < frame.len()
            invariant
                i <= frame@.len(),
                v@ == frame@.take(i as int),
            decreases frame@.len() - i,
        {
            v.push(frame[i]);
            assert(frame@.take(i as int + 1) =~= frame@.take(i as int).push(frame@[i as int]));
            i += 1;
        }
        assert(frame@.take(frame@.len() as int) =~= frame@);
        return Ok(v);
    }
    let mut payload: Vec<u8> = Vec::new();
    let mut i: usize = 1;
    while i < frame.len()
        invariant
            1 <= i <= frame@.len(),
            payload@ == frame@.subrange(1, i as int),
        decreases frame@.len() - i,
    {
        payload.push(frame[i]);
        assert(frame@.subrange(1, i as int + 1) =~= frame@.subrange(1, i as int).push(frame@[i as int]));
        i += 1;
    }
    assert(payload@ =~= frame@.skip(1));
    if frame[0] == FLAG_COMPRESSED {
        match lz4_decompress(payload.as_slice()) {
            Ok(v) => Ok(v),
            Err(_) => Err(ChunkError::Decompression),
        }
    } else {
        Ok(payload)
    }
}

/// A chunk sent in either frame arrives as the bytes that were read: raw
/// frames carry them, and compressed frames carry a block that decompresses
/// to them.
pub proof fn lemma_unframe_inverts_framing(raw: Seq<u8>, block: Seq<u8>)
    requires
        lz4_decompress_spec(block) == Some(raw),
    ensures
        unframe_spec(raw_frame_spec(raw)) == Some(raw),
        unframe_spec(compressed_frame_spec(block)) == Some(raw),
{
    assert(raw_frame_spec(raw).skip(1) =~= raw);
    assert(compressed_frame_spec(block).skip(1) =~= block);
}

} // verus!
