//! What a single flipped bit in a stream does to reading it.
use vstd::prelude::*;
use crate::png::bytes::lemma_be_bytes_of_value;
use crate::png::chunk::{ChunkView, chunk_bytes, chunks_bytes, chunk_view_wf, split_chunks, lemma_split_chunks_bytes};
use crate::png::decode::{read_png, read_chunks, has_signature, is_critical, image_pixels, flip_bit, with_crc, with_data,
    lemma_critical_crc_flip, lemma_critical_payload_flip, lemma_ancillary_crc_flip, PngImageView};
use crate::png::encode::{lemma_chunks_bytes_append, lemma_chunks_bytes_single};
use crate::png::PNGError;

verus! {

/// The chunks of a stream, after its signature.
pub open spec fn stream_chunks(bytes: Seq<u8>) -> Seq<ChunkView> {
    split_chunks(bytes.subrange(8, bytes.len() as int))->Some_0
}

/// Where chunk `i` of a stream starts.
pub open spec fn chunk_start(bytes: Seq<u8>, i: int) -> int {
    8 + chunks_bytes(stream_chunks(bytes).subrange(0, i)).len() as int
}

/// Bytes that split into chunks are those chunks written one after another.
proof fn lemma_split_join(s: Seq<u8>)
    requires
        split_chunks(s) is Some,
    ensures
        chunks_bytes(split_chunks(s)->Some_0) == s,
        forall|i: int| 0 <= i < split_chunks(s)->Some_0.len() ==> chunk_view_wf(#[trigger] split_chunks(s)->Some_0[i]),
    decreases s.len(),
{
    reveal(chunks_bytes);
    let cs = split_chunks(s)->Some_0;
    if s.len() == 0 {
        assert(chunks_bytes(cs) =~= s);
    } else {
        let n = crate::png::bytes::be_u32(s.subrange(0, 4));
        lemma_be_bytes_of_value(s.subrange(0, 4));
        let c = cs[0];
        let rest = s.subrange(12 + n, s.len() as int);
        lemma_split_join(rest);
        let r = split_chunks(rest)->Some_0;
        assert(cs == seq![c] + r);
        assert(cs.drop_first() =~= r);
        assert(c.data.len() == n);
        assert(chunk_bytes(c) =~= s.subrange(0, 12 + n));
        assert(chunks_bytes(cs) == chunk_bytes(c) + chunks_bytes(r));
        assert(s =~= s.subrange(0, 12 + n) + rest);
        assert forall|i: int| 0 <= i < cs.len() implies chunk_view_wf(#[trigger] cs[i]) by {
            if i > 0 {
                assert(cs[i] == r[i - 1]);
            }
        }
    }
}

/// The bytes of chunks with chunk `i` taken out in the middle.
proof fn lemma_chunks_bytes_around(cs: Seq<ChunkView>, i: int, c: ChunkView)
    requires
        0 <= i < cs.len(),
    ensures
        chunks_bytes(cs.update(i, c)) == chunks_bytes(cs.subrange(0, i)) + chunk_bytes(c)
            + chunks_bytes(cs.subrange(i + 1, cs.len() as int)),
{
    let pre = cs.subrange(0, i);
    let post = cs.subrange(i + 1, cs.len() as int);
    assert(cs.update(i, c) =~= pre + seq![c] + post);
    lemma_chunks_bytes_append(pre + seq![c], post);
    lemma_chunks_bytes_append(pre, seq![c]);
    lemma_chunks_bytes_single(c);
}

/// Flipping bit `q` of a chunk's bytes, past its length and type fields,
/// gives the bytes of the chunk with that bit flipped in its payload or CRC.
pub open spec fn flipped_chunk(c: ChunkView, q: int, bit: u8) -> ChunkView {
    if q < 8 + c.data.len() {
        with_data(c, flip_bit(c.data, q - 8, bit))
    } else {
        with_crc(c, flip_bit(c.crc, q - 8 - c.data.len(), bit))
    }
}

/// Flipping a bit at position `p` of a stream that reads, inside chunk
/// `i`'s payload or CRC, gives the stream of the chunks with that chunk
/// flipped.
proof fn lemma_flip_in_stream(bytes: Seq<u8>, i: int, q: int, bit: u8)
    requires
        read_png(bytes) is Ok,
        0 <= i < stream_chunks(bytes).len(),
        8 <= q < 12 + stream_chunks(bytes)[i].data.len(),
    ensures
        8 <= chunk_start(bytes, i) + q < bytes.len(),
        has_signature(flip_bit(bytes, chunk_start(bytes, i) + q, bit)),
        split_chunks(flip_bit(bytes, chunk_start(bytes, i) + q, bit).subrange(8, bytes.len() as int))
            == Some(stream_chunks(bytes).update(i, flipped_chunk(stream_chunks(bytes)[i], q, bit))),
{
    let s = bytes.subrange(8, bytes.len() as int);
    let cs = stream_chunks(bytes);
    lemma_split_join(s);
    let c = cs[i];
    let c2 = flipped_chunk(c, q, bit);
    assert(chunk_view_wf(c));
    let pre = cs.subrange(0, i);
    let post = cs.subrange(i + 1, cs.len() as int);
    lemma_chunks_bytes_around(cs, i, c);
    lemma_chunks_bytes_around(cs, i, c2);
    assert(cs.update(i, c) =~= cs);
    let o = chunks_bytes(pre).len();
    let p = 8 + o + q;
    let b2 = flip_bit(bytes, p, bit);
    assert(chunk_bytes(c2) =~= flip_bit(chunk_bytes(c), q, bit));
    assert(s == chunks_bytes(pre) + chunk_bytes(c) + chunks_bytes(post));
    assert(chunk_bytes(c).len() == 12 + c.data.len());
    assert(b2.subrange(8, bytes.len() as int) =~= flip_bit(s, o + q, bit));
    assert(flip_bit(s, o + q, bit) =~= chunks_bytes(pre) + flip_bit(chunk_bytes(c), q, bit) + chunks_bytes(post));
    assert(b2.subrange(0, 8) =~= bytes.subrange(0, 8));
    let cs2 = cs.update(i, c2);
    assert forall|k: int| 0 <= k < cs2.len() implies chunk_view_wf(#[trigger] cs2[k]) by {
        if k != i {
            assert(cs2[k] == cs[k]);
        }
    }
    lemma_split_chunks_bytes(cs2);
}

/// Flipping any single bit of a critical chunk's payload or CRC field (the
/// image data, say) in a stream that reads makes reading fail with
/// `CrcMismatch`.
pub proof fn lemma_stream_critical_flip(bytes: Seq<u8>, i: int, q: int, bit: u8)
    requires
        read_png(bytes) is Ok,
        0 <= i < stream_chunks(bytes).len(),
        is_critical(stream_chunks(bytes)[i].c_type),
        8 <= q < 12 + stream_chunks(bytes)[i].data.len(),
        bit < 8,
    ensures
        read_png(flip_bit(bytes, chunk_start(bytes, i) + q, bit)) == Err::<PngImageView, PNGError>(PNGError::CrcMismatch),
{
    let cs = stream_chunks(bytes);
    let c = cs[i];
    lemma_flip_in_stream(bytes, i, q, bit);
    lemma_split_join(bytes.subrange(8, bytes.len() as int));
    assert(chunk_view_wf(c));
    let b2 = flip_bit(bytes, chunk_start(bytes, i) + q, bit);
    assert(b2.len() == bytes.len());
    assert(read_png(b2) == read_chunks(cs.update(i, flipped_chunk(c, q, bit))));
    assert(read_chunks(cs) is Ok);
    if q < 8 + c.data.len() {
        lemma_critical_payload_flip(cs, i, q - 8, bit);
    } else {
        lemma_critical_crc_flip(cs, i, q - 8 - c.data.len(), bit);
    }
}

/// Flipping any single bit of the CRC field of an ancillary chunk in a
/// stream that reads still lets it read, to the same pixels.
pub proof fn lemma_stream_ancillary_flip(bytes: Seq<u8>, i: int, q: int, bit: u8)
    requires
        read_png(bytes) is Ok,
        0 < i < stream_chunks(bytes).len(),
        !is_critical(stream_chunks(bytes)[i].c_type),
        8 + stream_chunks(bytes)[i].data.len() <= q < 12 + stream_chunks(bytes)[i].data.len(),
        bit < 8,
    ensures
        read_png(flip_bit(bytes, chunk_start(bytes, i) + q, bit)) is Ok,
        image_pixels(read_png(flip_bit(bytes, chunk_start(bytes, i) + q, bit))->Ok_0) == image_pixels(read_png(bytes)->Ok_0),
{
    let cs = stream_chunks(bytes);
    let c = cs[i];
    lemma_flip_in_stream(bytes, i, q, bit);
    lemma_split_join(bytes.subrange(8, bytes.len() as int));
    assert(chunk_view_wf(c));
    let b2 = flip_bit(bytes, chunk_start(bytes, i) + q, bit);
    assert(b2.len() == bytes.len());
    assert(read_png(b2) == read_chunks(cs.update(i, flipped_chunk(c, q, bit))));
    assert(read_png(bytes) == read_chunks(cs));
    assert(flipped_chunk(c, q, bit) == with_crc(c, flip_bit(c.crc, q - 8 - c.data.len(), bit)));
    lemma_ancillary_crc_flip(cs, i, q - 8 - c.data.len(), bit);
}

} // verus!
