//! Chunks: the length-prefixed, typed, CRC-protected segments of a PNG stream.
use vstd::prelude::*;
use vstd::slice::slice_subrange;
use crate::png::bytes::{be_bytes, be_u32, be_bytes_to_u32, u32_to_be_bytes, copy_range, append_bytes, lemma_be_round_trip};
use crate::png::crc::{CrcTable, crc_field};
use crate::png::PNGError;

verus! {

/// What a chunk holds: its type tag, its payload and its stored CRC.
pub struct ChunkView {
    pub c_type: Seq<u8>,
    pub data: Seq<u8>,
    pub crc: Seq<u8>,
}

/// Whether the stored CRC equals the CRC-32 of type tag and payload.
pub open spec fn crc_ok(c: ChunkView) -> bool {
    c.crc == crc_field(c.c_type + c.data)
}

/// A well-formed chunk: a four-byte tag, a four-byte CRC, and a payload
/// whose length fits the 32-bit length field.
pub open spec fn chunk_view_wf(c: ChunkView) -> bool {
    c.c_type.len() == 4 && c.crc.len() == 4 && c.data.len() <= u32::MAX
}

/// The bytes of a chunk on the wire: length, type, payload, CRC.
pub open spec fn chunk_bytes(c: ChunkView) -> Seq<u8> {
    be_bytes(c.data.len() as u32) + c.c_type + c.data + c.crc
}

/// The bytes of a sequence of chunks, one after another.
#[verifier::opaque]
pub open spec fn chunks_bytes(cs: Seq<ChunkView>) -> Seq<u8>
    decreases cs.len(),
{
    if cs.len() == 0 { seq![] } else { chunk_bytes(cs[0]) + chunks_bytes(cs.drop_first()) }
}

/// The first chunk of `s`, if the whole of it lies within `s`.
pub open spec fn first_chunk(s: Seq<u8>) -> Option<ChunkView> {
    if s.len() < 12 {
        None
    } else {
        let n = be_u32(s.subrange(0, 4));
        if s.len() < 12 + n {
            None
        } else {
            Some(ChunkView {
                c_type: s.subrange(4, 8),
                data: s.subrange(8, 8 + n),
                crc: s.subrange(8 + n, 12 + n),
            })
        }
    }
}

/// Splits a byte stream into chunks; `None` when the last one runs past the end.
pub open spec fn split_chunks(s: Seq<u8>) -> Option<Seq<ChunkView>>
    decreases s.len(),
{
    if s.len() == 0 {
        Some(seq![])
    } else if s.len() < 12 {
        None
    } else {
        let n = be_u32(s.subrange(0, 4));
        if s.len() < 12 + n {
            None
        } else {
            let c = ChunkView {
                c_type: s.subrange(4, 8),
                data: s.subrange(8, 8 + n),
                crc: s.subrange(8 + n, 12 + n),
            };
            match split_chunks(s.subrange(12 + n, s.len() as int)) {
                Some(rest) => Some(seq![c] + rest),
                None => None,
            }
        }
    }
}

/// Splitting the bytes of well-formed chunks gives the chunks back.
pub proof fn lemma_split_chunks_bytes(cs: Seq<ChunkView>)
    requires
        forall|i: int| 0 <= i < cs.len() ==> chunk_view_wf(#[trigger] cs[i]),
    ensures
        split_chunks(chunks_bytes(cs)) == Some(cs),
    decreases cs.len(),
{
    reveal(chunks_bytes);
    if cs.len() == 0 {
        assert(chunks_bytes(cs) =~= seq![]);
    } else {
        let c = cs[0];
        let rest = cs.drop_first();
        assert forall|i: int| 0 <= i < rest.len() implies chunk_view_wf(#[trigger] rest[i]) by {
            assert(rest[i] == cs[i + 1]);
        }
        lemma_split_chunks_bytes(rest);
        let s = chunks_bytes(cs);
        let n = c.data.len() as int;
        lemma_be_round_trip(n as u32);
        assert(chunk_view_wf(c));
        assert(s == chunk_bytes(c) + chunks_bytes(rest));
        assert(s.subrange(0, 4) =~= be_bytes(n as u32));
        assert(s.subrange(4, 8) =~= c.c_type);
        assert(s.subrange(8, 8 + n) =~= c.data);
        assert(s.subrange(8 + n, 12 + n) =~= c.crc);
        assert(s.subrange(12 + n, s.len() as int) =~= chunks_bytes(rest));
        assert(seq![c] + rest =~= cs);
    }
}

/// A chunk of a PNG stream. Its length field always equals its payload length.
#[derive(Debug)]
pub struct Chunk {
    length: u32,
    c_type: [u8; 4],
    data: Vec<u8>,
    crc: [u8; 4],
}

impl View for Chunk {
    type V = ChunkView;

    closed spec fn view(&self) -> ChunkView {
        ChunkView { c_type: self.c_type@, data: self.data@, crc: self.crc@ }
    }
}

impl Chunk {
    #[verifier::type_invariant]
    spec fn inv(&self) -> bool {
        self.length as int == self.data@.len()
    }

    /// A chunk with the given type and payload, and the CRC computed over both.
    pub fn new(c_type: [u8; 4], data: Vec<u8>) -> (c: Chunk)
        requires
            data@.len() <= u32::MAX,
        ensures
            c@.c_type == c_type@,
            c@.data == data@,
            c@.crc == crc_field(c_type@ + data@),
            crc_ok(c@),
            chunk_view_wf(c@),
    {
        Chunk::new_with(c_type, data, &CrcTable::new())
    }

    /// `new`, with a CRC table the caller already built.
    pub fn new_with(c_type: [u8; 4], data: Vec<u8>, table: &CrcTable) -> (c: Chunk)
        requires
            data@.len() <= u32::MAX,
        ensures
            c@.c_type == c_type@,
            c@.data == data@,
            c@.crc == crc_field(c_type@ + data@),
            crc_ok(c@),
            chunk_view_wf(c@),
    {
        let mut chunk_data: Vec<u8> = Vec::new();
        append_bytes(&mut chunk_data, &c_type);
        append_bytes(&mut chunk_data, data.as_slice());
        let crc = table.checksum(chunk_data.as_slice());
        Chunk { length: data.len() as u32, c_type, data, crc }
    }

    /// A chunk exactly as read from a stream, stored CRC included.
    fn from_parts(c_type: [u8; 4], data: Vec<u8>, crc: [u8; 4]) -> (c: Chunk)
        requires
            data@.len() <= u32::MAX,
        ensures
            c@ == (ChunkView { c_type: c_type@, data: data@, crc: crc@ }),
    {
        Chunk { length: data.len() as u32, c_type, data, crc }
    }

    /// Payload length.
    pub fn length(&self) -> (r: u32)
        ensures
            r as int == self@.data.len(),
    {
        proof { use_type_invariant(self); }
        self.length
    }

    /// Type tag.
    pub fn c_type(&self) -> (r: [u8; 4])
        ensures
            r@ == self@.c_type,
    {
        self.c_type
    }

    /// Payload.
    pub fn data(&self) -> (r: &[u8])
        ensures
            r@ == self@.data,
    {
        self.data.as_slice()
    }

    /// Stored CRC.
    pub fn crc(&self) -> (r: [u8; 4])
        ensures
            r@ == self@.crc,
    {
        self.crc
    }

    /// Brings the chunk's invariant into a caller's proof: its payload fits
    /// the length field.
    pub(crate) fn show_wf(&self)
        ensures
            chunk_view_wf(self@),
    {
        proof { use_type_invariant(self); }
    }

    /// A copy of this chunk.
    pub fn duplicate(&self) -> (r: Chunk)
        ensures
            r@ == self@,
    {
        proof { use_type_invariant(self); }
        let data = copy_range(self.data.as_slice(), 0, self.data.len());
        assert(data@ =~= self.data@);
        Chunk { length: self.length, c_type: self.c_type, data, crc: self.crc }
    }

    /// Whether the stored CRC matches type tag and payload.
    pub fn crc_okay(&self) -> (r: bool)
        ensures
            r == crc_ok(self@),
    {
        self.crc_okay_with(&CrcTable::new())
    }

    /// `crc_okay`, with a CRC table the caller already built.
    pub fn crc_okay_with(&self, table: &CrcTable) -> (r: bool)
        ensures
            r == crc_ok(self@),
    {
        let mut chunk_data: Vec<u8> = Vec::new();
        append_bytes(&mut chunk_data, &self.c_type);
        append_bytes(&mut chunk_data, self.data.as_slice());
        let computed = table.checksum(chunk_data.as_slice());
        let ok = computed[0] == self.crc[0] && computed[1] == self.crc[1] && computed[2] == self.crc[2]
            && computed[3] == self.crc[3];
        proof {
            if ok {
                assert(computed@ =~= self.crc@);
            }
        }
        ok
    }

    /// Appends the chunk's wire bytes to `out`.
    pub fn write_all(&self, out: &mut Vec<u8>)
        ensures
            final(out)@ == old(out)@ + chunk_bytes(self@),
    {
        proof { use_type_invariant(self); }
        let len = u32_to_be_bytes(self.length);
        append_bytes(out, &len);
        append_bytes(out, &self.c_type);
        append_bytes(out, self.data.as_slice());
        append_bytes(out, &self.crc);
        assert(final(out)@ =~= old(out)@ + chunk_bytes(self@));
    }
}

/// A pull cursor over the chunks of a byte stream.
pub struct ChunkDecoder<'a> {
    start: usize,
    data: &'a [u8],
}

impl<'a> ChunkDecoder<'a> {
    /// The bytes not read yet.
    pub closed spec fn rest(&self) -> Seq<u8> {
        self.data@.subrange(self.start as int, self.data@.len() as int)
    }

    pub closed spec fn wf(&self) -> bool {
        self.start <= self.data@.len()
    }

    pub closed spec fn source(&self) -> Seq<u8> {
        self.data@
    }

    /// A cursor at the start of `data`.
    pub fn from_data(data: &'a [u8]) -> (d: Self)
        ensures
            d.wf(),
            d.source() == data@,
            d.rest() == data@,
    {
        let d = ChunkDecoder { start: 0, data };
        assert(d.rest() =~= data@);
        d
    }

    /// Takes the next `length` bytes, or nothing if fewer remain.
    pub fn extract_bytes(&mut self, length: usize) -> (r: Option<&'a [u8]>)
        requires
            old(self).wf(),
        ensures
            final(self).wf(),
            final(self).source() == old(self).source(),
            length <= old(self).rest().len() ==> r is Some && r->Some_0@ == old(self).rest().subrange(0, length as int)
                && final(self).rest() == old(self).rest().subrange(length as int, old(self).rest().len() as int),
            length > old(self).rest().len() ==> r is None && *final(self) == *old(self),
    {
        if length <= self.data.len() - self.start {
            let s = slice_subrange(self.data, self.start, self.start + length);
            self.start = self.start + length;
            assert(s@ =~= old(self).rest().subrange(0, length as int));
            assert(self.rest() =~= old(self).rest().subrange(length as int, old(self).rest().len() as int));
            Some(s)
        } else {
            None
        }
    }

    /// The next chunk: `Ok(None)` at the end of the stream, `MalformedChunk`
    /// when the chunk runs past it.
    pub fn next_chunk(&mut self) -> (r: Result<Option<Chunk>, PNGError>)
        requires
            old(self).wf(),
        ensures
            final(self).wf(),
            final(self).source() == old(self).source(),
            old(self).rest().len() == 0 ==> r == Ok::<Option<Chunk>, PNGError>(None),
            old(self).rest().len() > 0 ==> match r {
                Ok(Some(c)) => first_chunk(old(self).rest()) == Some(c@) && final(self).rest()
                    == old(self).rest().subrange(12 + c@.data.len() as int, old(self).rest().len() as int),
                Ok(None) => false,
                Err(e) => e == PNGError::MalformedChunk && first_chunk(old(self).rest()) is None,
            },
    {
        let ghost s = old(self).rest();
        if self.start == self.data.len() {
            return Ok(None);
        }
        if self.data.len() - self.start < 12 {
            return Err(PNGError::MalformedChunk);
        }
        let st = self.start;
        let len_bytes: [u8; 4] = [self.data[st], self.data[st + 1], self.data[st + 2], self.data[st + 3]];
        assert(len_bytes@ =~= s.subrange(0, 4));
        let length = be_bytes_to_u32(&len_bytes);
        if (length as usize) > self.data.len() - st - 12 {
            return Err(PNGError::MalformedChunk);
        }
        let c_type: [u8; 4] = [self.data[st + 4], self.data[st + 5], self.data[st + 6], self.data[st + 7]];
        assert(c_type@ =~= s.subrange(4, 8));
        self.start = st + 8;
        assert(self.rest() =~= s.subrange(8, s.len() as int));
        let payload = self.extract_bytes(length as usize).unwrap();
        let data = copy_range(payload, 0, payload.len());
        let cb = self.extract_bytes(4).unwrap();
        let crc_bytes: [u8; 4] = [cb[0], cb[1], cb[2], cb[3]];
        assert(data@ =~= s.subrange(8, 8 + length));
        assert(crc_bytes@ =~= s.subrange(8 + length, 12 + length));
        assert(self.rest() =~= s.subrange(12 + length, s.len() as int));
        let c = Chunk::from_parts(c_type, data, crc_bytes);
        Ok(Some(c))
    }
}

/// The views of a sequence of chunks.
pub open spec fn views(cs: Seq<Chunk>) -> Seq<ChunkView> {
    cs.map_values(|c: Chunk| c@)
}

/// Splits `data` into chunks; `MalformedChunk` when one runs past the end.
pub fn split_into_chunks(data: &[u8]) -> (r: Result<Vec<Chunk>, PNGError>)
    ensures
        match split_chunks(data@) {
            Some(cs) => r is Ok && views(r->Ok_0@) == cs,
            None => r == Err::<Vec<Chunk>, PNGError>(PNGError::MalformedChunk),
        },
{
    let mut decoder = ChunkDecoder::from_data(data);
    let mut chunks: Vec<Chunk> = Vec::new();
    loop
        invariant
            decoder.wf(),
            decoder.source() == data@,
            split_chunks(data@) == match split_chunks(decoder.rest()) {
                Some(r) => Some(views(chunks@) + r),
                None => None::<Seq<ChunkView>>,
            },
        decreases decoder.rest().len(),
    {
        let ghost before = decoder.rest();
        let ghost acc = views(chunks@);
        match decoder.next_chunk() {
            Ok(None) => {
                assert(split_chunks(before) == Some(Seq::<ChunkView>::empty()));
                assert(acc + Seq::<ChunkView>::empty() =~= acc);
                return Ok(chunks);
            },
            Ok(Some(c)) => {
                c.show_wf();
                proof {
                    let n = be_u32(before.subrange(0, 4));
                    assert(n == c@.data.len());
                    assert(views(chunks@.push(c)) =~= acc.push(c@));
                    match split_chunks(decoder.rest()) {
                        Some(r) => {
                            assert(acc.push(c@) + r =~= acc + (seq![c@] + r));
                        },
                        None => {},
                    }
                }
                chunks.push(c);
            },
            Err(e) => {
                return Err(e);
            },
        }
    }
}

} // verus!
