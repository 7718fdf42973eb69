//! Writing a pixel buffer as a PNG stream: 8-bit RGBA, unfiltered rows.
use vstd::prelude::*;
use crate::color::{Color, color_bytes};
use crate::png::bytes::append_bytes;
use crate::png::chunk::{Chunk, ChunkView, chunk_bytes, chunks_bytes, chunk_view_wf, crc_ok, split_chunks,
    lemma_split_chunks_bytes, views};
use crate::png::crc::{CrcTable, crc_field};
use crate::png::decode::{PngImageView, has_signature, signature, ihdr_tag, idat_tag, iend_tag, plte_tag, read_png, read_chunks,
    fold_chunks, step, initial_state, image_pixels, decode_png, pixel_rows, unfiltered_row, row_count,
    palette_or_default, zeros};
use crate::png::filter::{FilterType, unfiltered_prefix};
use crate::png::header::{PngHeader, header_bytes, parse_header, legal_bit_depth, bpp_of, row_len_of,
    lemma_header_round_trip};
use crate::png::unpack::{unpack_row_spec, pixel_at};
use crate::png::zlib::{compress_zlib, zlib_deflated, zlib_inflated};
use crate::png::PNGError;

verus! {

/// The bytes of a run of pixels, four per pixel.
pub open spec fn pixels_bytes(s: Seq<Color>) -> Seq<u8>
    decreases s.len(),
{
    if s.len() == 0 { seq![] } else { pixels_bytes(s.drop_last()) + color_bytes(s.last()) }
}

/// The first `h` unfiltered scanlines of an image `w` pixels wide: each a
/// zero filter tag and the bytes of its pixels.
pub open spec fn raw_rows(p: Seq<Color>, w: nat, h: nat) -> Seq<u8>
    decreases h,
{
    if h == 0 {
        seq![]
    } else {
        raw_rows(p, w, (h - 1) as nat) + seq![0u8] + pixels_bytes(p.subrange(((h - 1) * w) as int, (h * w) as int))
    }
}

/// The header the writer emits: 8-bit RGBA, no interlace.
pub open spec fn encode_header(w: u32, h: u32) -> PngHeader {
    PngHeader { width: w, height: h, bit_depth: 8, color_type: 6, compression: 0, filter: 0, interlace: 0 }
}

/// A chunk with the CRC computed over its type and payload.
pub open spec fn made_chunk(tag: Seq<u8>, d: Seq<u8>) -> ChunkView {
    ChunkView { c_type: tag, data: d, crc: crc_field(tag + d) }
}

/// The chunks the writer emits: header, image data, the caller's chunks, end.
pub open spec fn encoded_chunks(w: u32, h: u32, z: Seq<u8>, aux: Seq<ChunkView>) -> Seq<ChunkView> {
    seq![made_chunk(ihdr_tag(), header_bytes(encode_header(w, h))), made_chunk(idat_tag(), z)] + aux
        + seq![made_chunk(iend_tag(), seq![])]
}

/// The stream written for a `w` by `h` image: fails only when the
/// compressed data does not fit a chunk.
pub open spec fn encode_png(w: u32, h: u32, p: Seq<Color>, aux: Seq<ChunkView>) -> Result<Seq<u8>, PNGError> {
    let z = zlib_deflated(raw_rows(p, w as nat, h as nat));
    if z.len() > u32::MAX {
        Err(PNGError::InvalidImageSize)
    } else {
        Ok(signature() + chunks_bytes(encoded_chunks(w, h, z, aux)))
    }
}

/// Dimensions a writer accepts: both positive, matching the buffer, and
/// with scanlines that fit in memory.
pub open spec fn valid_size(w: u32, h: u32, len: nat) -> bool {
    w > 0 && h > 0 && len == w as nat * h as nat && h as nat * (4 * w as nat + 1) <= usize::MAX
}

proof fn lemma_pixels_bytes_len(s: Seq<Color>)
    ensures
        pixels_bytes(s).len() == 4 * s.len(),
    decreases s.len(),
{
    if s.len() > 0 {
        lemma_pixels_bytes_len(s.drop_last());
    }
}

proof fn lemma_pixels_bytes_index(s: Seq<Color>, k: int, j: int)
    requires
        0 <= k < s.len(),
        0 <= j < 4,
    ensures
        pixels_bytes(s).len() == 4 * s.len(),
        pixels_bytes(s)[4 * k + j] == color_bytes(s[k])[j],
    decreases s.len(),
{
    lemma_pixels_bytes_len(s);
    lemma_pixels_bytes_len(s.drop_last());
    if k < s.len() - 1 {
        lemma_pixels_bytes_index(s.drop_last(), k, j);
    }
}

proof fn lemma_pixels_bytes_push(s: Seq<Color>, c: Color)
    ensures
        pixels_bytes(s.push(c)) == pixels_bytes(s) + color_bytes(c),
{
    assert(s.push(c).drop_last() =~= s);
}

pub(crate) proof fn lemma_chunks_bytes_append(a: Seq<ChunkView>, b: Seq<ChunkView>)
    ensures
        chunks_bytes(a + b) == chunks_bytes(a) + chunks_bytes(b),
    decreases a.len(),
{
    reveal(chunks_bytes);
    if a.len() == 0 {
        assert(a + b =~= b);
        assert(chunks_bytes(a) =~= seq![]);
        assert(seq![] + chunks_bytes(b) =~= chunks_bytes(b));
    } else {
        lemma_chunks_bytes_append(a.drop_first(), b);
        assert((a + b).drop_first() =~= a.drop_first() + b);
        assert(chunks_bytes(a + b) =~= chunk_bytes(a[0]) + chunks_bytes(a.drop_first() + b));
    }
}

pub(crate) proof fn lemma_chunks_bytes_single(c: ChunkView)
    ensures
        chunks_bytes(seq![c]) == chunk_bytes(c),
{
    reveal(chunks_bytes);
    let e = Seq::<ChunkView>::empty();
    assert(seq![c].drop_first() =~= e);
    assert(chunks_bytes(e) == Seq::<u8>::empty());
    assert(chunks_bytes(seq![c]) == chunk_bytes(seq![c][0]) + chunks_bytes(seq![c].drop_first()));
    assert(chunk_bytes(c) + Seq::<u8>::empty() =~= chunk_bytes(c));
}

proof fn lemma_row_slice(p: Seq<Color>, w: nat, n: nat, h: nat)
    requires
        1 <= n <= h,
        p.len() == w * h,
    ensures
        0 <= (n - 1) * w,
        (n - 1) * w + w == n * w,
        n * w <= p.len(),
        p.subrange(((n - 1) * w) as int, (n * w) as int).len() == w,
        pixels_bytes(p.subrange(((n - 1) * w) as int, (n * w) as int)).len() == 4 * w,
        raw_rows(p, w, n) == raw_rows(p, w, (n - 1) as nat) + seq![0u8] + pixels_bytes(p.subrange(((n - 1) * w) as int, (n * w) as int)),
{
    assert((n - 1) * w + w == n * w && n * w <= w * h && 0 <= (n - 1) * w) by (nonlinear_arith)
        requires n >= 1, n <= h;
    lemma_pixels_bytes_len(p.subrange(((n - 1) * w) as int, (n * w) as int));
}

proof fn lemma_raw_rows_len(p: Seq<Color>, w: nat, n: nat, h: nat)
    requires
        n <= h,
        p.len() == w * h,
    ensures
        raw_rows(p, w, n).len() == n * (4 * w + 1),
    decreases n,
{
    if n > 0 {
        lemma_raw_rows_len(p, w, (n - 1) as nat, h);
        lemma_row_slice(p, w, n, h);
        assert((n - 1) * (4 * w + 1) + 1 + 4 * w == n * (4 * w + 1)) by (nonlinear_arith);
    } else {
        assert(raw_rows(p, w, 0) == Seq::<u8>::empty());
    }
}

proof fn lemma_raw_rows_row(p: Seq<Color>, w: nat, n: nat, h: nat, k: nat)
    requires
        k < n <= h,
        p.len() == w * h,
    ensures
        raw_rows(p, w, n).subrange((k * (4 * w + 1)) as int, ((k + 1) * (4 * w + 1)) as int)
            == seq![0u8] + pixels_bytes(p.subrange((k * w) as int, ((k + 1) * w) as int)),
    decreases n,
{
    let prev = raw_rows(p, w, (n - 1) as nat);
    lemma_raw_rows_len(p, w, (n - 1) as nat, h);
    lemma_row_slice(p, w, n, h);
    let a = (k * (4 * w + 1)) as int;
    let b = ((k + 1) * (4 * w + 1)) as int;
    assert(0 <= a && a + 4 * w + 1 == b) by (nonlinear_arith)
        requires a == k * (4 * w + 1), b == (k + 1) * (4 * w + 1);
    if k < n - 1 {
        lemma_raw_rows_row(p, w, (n - 1) as nat, h, k);
        assert(b <= (n - 1) * (4 * w + 1)) by (nonlinear_arith)
            requires k + 1 <= n - 1, b == (k + 1) * (4 * w + 1);
        assert(raw_rows(p, w, n).subrange(a, b) =~= prev.subrange(a, b));
    } else {
        assert(a == prev.len());
        assert(raw_rows(p, w, n).subrange(a, b)
            =~= seq![0u8] + pixels_bytes(p.subrange((k * w) as int, ((k + 1) * w) as int)));
    }
}

proof fn lemma_no_filter_prefix(f: Seq<u8>, prev: Seq<u8>, bpp: nat, n: nat)
    requires
        n <= f.len(),
    ensures
        unfiltered_prefix(FilterType::NoFilter, f, prev, bpp, n) == f.subrange(0, n as int),
    decreases n,
{
    if n > 0 {
        lemma_no_filter_prefix(f, prev, bpp, (n - 1) as nat);
        assert(f.subrange(0, n - 1).push(f[n - 1]) =~= f.subrange(0, n as int));
    } else {
        assert(f.subrange(0, 0) =~= seq![]);
    }
}

proof fn lemma_unpack_rgba8(w: u32, h: u32, pal: Seq<Color>, q: Seq<Color>)
    requires
        q.len() == w,
    ensures
        unpack_row_spec(encode_header(w, h), pal, pixels_bytes(q)) == q,
{
    let hd = encode_header(w, h);
    let row = pixels_bytes(q);
    assert(legal_bit_depth(6, 8));
    assert forall|k: int| 0 <= k < q.len() implies #[trigger] pixel_at(hd, pal, row, k) == q[k] by {
        lemma_pixels_bytes_index(q, k, 0);
        lemma_pixels_bytes_index(q, k, 1);
        lemma_pixels_bytes_index(q, k, 2);
        lemma_pixels_bytes_index(q, k, 3);
    }
    assert(unpack_row_spec(hd, pal, row) =~= q);
}

proof fn lemma_encode_header_sizes(w: u32, h: u32)
    ensures
        row_len_of(encode_header(w, h)) == 4 * w as nat,
        bpp_of(encode_header(w, h)) == 4,
{
    let hd = encode_header(w, h);
    assert(crate::png::header::channels(6) == 4);
    assert(hd.bit_depth as nat * crate::png::header::channels(hd.color_type) * w as nat == 32 * w as nat);
    vstd::arithmetic::div_mod::lemma_fundamental_div_mod_converse(32 * w as int + 7, 8, 4 * w as int, 7);
}

proof fn lemma_decoded_rows(p: Seq<Color>, w: u32, h: u32, pal: Seq<Color>, n: nat)
    requires
        w > 0,
        n <= h,
        p.len() == w as nat * h as nat,
    ensures
        pixel_rows(encode_header(w, h), pal, raw_rows(p, w as nat, h as nat), n) == p.subrange(0, (n * w) as int),
    decreases n,
{
    let hd = encode_header(w, h);
    let raw = raw_rows(p, w as nat, h as nat);
    let wn = w as nat;
    lemma_encode_header_sizes(w, h);
    if n == 0 {
        assert(0 * wn == 0);
        assert(p.subrange(0, 0) =~= seq![]);
    } else {
        let k = (n - 1) as nat;
        lemma_decoded_rows(p, w, h, pal, k);
        assert(k * wn + wn == n * wn && n * wn <= wn * h && 0 <= k * wn) by (nonlinear_arith)
            requires n >= 1, n <= h, k == n - 1;
        lemma_raw_rows_len(p, wn, h as nat, h as nat);
        assert((k + 1) * (4 * wn + 1) <= h * (4 * wn + 1)) by (nonlinear_arith)
            requires k + 1 <= h;
        lemma_raw_rows_row(p, wn, h as nat, h as nat, k);
        let start = (k * (4 * wn + 1)) as int;
        assert(k * (4 * wn + 1) + 4 * wn + 1 == (k + 1) * (4 * wn + 1)) by (nonlinear_arith);
        let q = p.subrange((k * wn) as int, ((k + 1) * wn) as int);
        let line = raw.subrange(start, start + 1 + 4 * wn);
        assert(line == seq![0u8] + pixels_bytes(q));
        assert(raw[start] == line[0]);
        assert(raw.subrange(start + 1, start + 1 + 4 * wn) =~= pixels_bytes(q)) by {
            lemma_pixels_bytes_len(q);
            assert(raw.subrange(start + 1, start + 1 + 4 * wn) =~= line.subrange(1, 1 + 4 * wn as int));
        }
        let prev = if k == 0 { zeros(4 * wn) } else { unfiltered_row(raw, 4 * wn, 4, (k - 1) as nat) };
        lemma_pixels_bytes_len(q);
        lemma_no_filter_prefix(pixels_bytes(q), prev, 4, 4 * wn);
        assert(pixels_bytes(q).subrange(0, 4 * wn as int) =~= pixels_bytes(q));
        assert(unfiltered_row(raw, 4 * wn, 4, k) == pixels_bytes(q));
        lemma_unpack_rgba8(w, h, pal, q);
        assert(pixel_rows(hd, pal, raw, n) == pixel_rows(hd, pal, raw, k) + unpack_row_spec(hd, pal, unfiltered_row(raw, 4 * wn, 4, k)));
        assert(pixel_rows(hd, pal, raw, k) == p.subrange(0, (k * wn) as int));
        assert(unpack_row_spec(hd, pal, unfiltered_row(raw, 4 * wn, 4, k)) == q);
        assert(p.subrange(0, (k * wn) as int) + q =~= p.subrange(0, (n * wn) as int));
    }
}

proof fn lemma_tags_distinct()
    ensures
        idat_tag() != plte_tag(),
        idat_tag() != ihdr_tag(),
        idat_tag() != iend_tag(),
        iend_tag() != plte_tag(),
        iend_tag() != ihdr_tag(),
        iend_tag() != idat_tag(),
{
    assert(idat_tag()[0] != plte_tag()[0]);
    assert(idat_tag()[1] != ihdr_tag()[1]);
    assert(idat_tag()[1] != iend_tag()[1]);
    assert(iend_tag()[0] != plte_tag()[0]);
    assert(iend_tag()[1] != ihdr_tag()[1]);
}

proof fn lemma_split_encoded(w: u32, h: u32, z: Seq<u8>, bytes: Seq<u8>)
    requires
        z.len() <= u32::MAX,
        bytes == signature() + chunks_bytes(encoded_chunks(w, h, z, seq![])),
    ensures
        has_signature(bytes),
        split_chunks(bytes.subrange(8, bytes.len() as int)) == Some(encoded_chunks(w, h, z, seq![])),
        encoded_chunks(w, h, z, seq![]) == seq![
            made_chunk(ihdr_tag(), header_bytes(encode_header(w, h))),
            made_chunk(idat_tag(), z),
            made_chunk(iend_tag(), seq![]),
        ],
{
    let hd = encode_header(w, h);
    let c0 = made_chunk(ihdr_tag(), header_bytes(hd));
    let c1 = made_chunk(idat_tag(), z);
    let c2 = made_chunk(iend_tag(), seq![]);
    let cs = encoded_chunks(w, h, z, seq![]);
    assert(cs =~= seq![c0, c1, c2]);
    lemma_header_round_trip(hd);
    assert(chunk_view_wf(c0) && chunk_view_wf(c1) && chunk_view_wf(c2));
    assert forall|i: int| 0 <= i < cs.len() implies chunk_view_wf(#[trigger] cs[i]) by {}
    lemma_split_chunks_bytes(cs);
    assert(bytes.subrange(0, 8) =~= signature());
    assert(bytes.subrange(8, bytes.len() as int) =~= chunks_bytes(cs));
}

proof fn lemma_fold_encoded(hd: PngHeader, z: Seq<u8>)
    ensures
        fold_chunks(initial_state(hd), seq![made_chunk(idat_tag(), z), made_chunk(iend_tag(), seq![])]) is Ok,
        fold_chunks(initial_state(hd), seq![made_chunk(idat_tag(), z), made_chunk(iend_tag(), seq![])])->Ok_0.iend,
        fold_chunks(initial_state(hd), seq![made_chunk(idat_tag(), z), made_chunk(iend_tag(), seq![])])->Ok_0.image.idat == z,
        fold_chunks(initial_state(hd), seq![made_chunk(idat_tag(), z), made_chunk(iend_tag(), seq![])])->Ok_0.image.palette is None,
        fold_chunks(initial_state(hd), seq![made_chunk(idat_tag(), z), made_chunk(iend_tag(), seq![])])->Ok_0.image.header == hd,
{
    let c1 = made_chunk(idat_tag(), z);
    let c2 = made_chunk(iend_tag(), seq![]);
    let rest = seq![c1, c2];
    lemma_tags_distinct();
    let s0 = initial_state(hd);
    assert(rest.drop_last() =~= seq![c1]);
    assert(seq![c1].drop_last() =~= Seq::<ChunkView>::empty());
    assert(crc_ok(c1) && crc_ok(c2));
    assert(fold_chunks(s0, Seq::<ChunkView>::empty()) == Ok::<_, PNGError>(s0));
    assert(fold_chunks(s0, seq![c1]) == step(s0, c1));
    assert(Seq::<u8>::empty() + z =~= z);
    let s1 = step(s0, c1)->Ok_0;
    assert(s1.image.idat == z);
    assert(fold_chunks(s0, rest) == step(s1, c2));
}

/// A stream whose chunks are those the writer emits, with no extra chunks,
/// reads back as their header and image data.
proof fn lemma_read_encoded(w: u32, h: u32, z: Seq<u8>, bytes: Seq<u8>)
    requires
        w > 0,
        h > 0,
        has_signature(bytes),
        split_chunks(bytes.subrange(8, bytes.len() as int)) == Some(seq![
            made_chunk(ihdr_tag(), header_bytes(encode_header(w, h))),
            made_chunk(idat_tag(), z),
            made_chunk(iend_tag(), seq![]),
        ]),
    ensures
        read_png(bytes) is Ok,
        read_png(bytes)->Ok_0.header == encode_header(w, h),
        read_png(bytes)->Ok_0.idat == z,
        read_png(bytes)->Ok_0.palette is None,
{
    let hd = encode_header(w, h);
    let c0 = made_chunk(ihdr_tag(), header_bytes(hd));
    let c1 = made_chunk(idat_tag(), z);
    let c2 = made_chunk(iend_tag(), seq![]);
    let cs = seq![c0, c1, c2];
    lemma_header_round_trip(hd);
    assert(legal_bit_depth(6, 8));
    assert(parse_header(c0.data) == Ok::<PngHeader, PNGError>(hd));
    assert(cs.drop_first() =~= seq![c1, c2]);
    lemma_fold_encoded(hd, z);
    assert(crc_ok(c0));
    let st = fold_chunks(initial_state(hd), cs.drop_first());
    assert(st is Ok && st->Ok_0.iend);
    assert(read_chunks(cs) == Ok::<_, PNGError>(st->Ok_0.image));
}

proof fn lemma_pixels_encoded(w: u32, h: u32, p: Seq<Color>, img: PngImageView)
    requires
        valid_size(w, h, p.len()),
        img.header == encode_header(w, h),
        zlib_inflated(img.idat) == Some(raw_rows(p, w as nat, h as nat)),
    ensures
        image_pixels(img) == Ok::<Seq<Color>, PNGError>(p),
{
    let raw = raw_rows(p, w as nat, h as nat);
    let wn = w as nat;
    lemma_raw_rows_len(p, wn, h as nat, h as nat);
    lemma_encode_header_sizes(w, h);
    assert(row_count(raw, 4 * wn) == h) by {
        assert(raw.len() == h * (4 * wn + 1));
        vstd::arithmetic::div_mod::lemma_div_multiples_vanish(h as int, (4 * wn + 1) as int);
        assert(h * (4 * wn + 1) == (4 * wn + 1) * h) by (nonlinear_arith);
    }
    lemma_decoded_rows(p, w, h, palette_or_default(img), h as nat);
    assert(h * wn == p.len()) by (nonlinear_arith)
        requires p.len() == wn * h;
    assert(p.subrange(0, (h * wn) as int) =~= p);
}

/// Decoding what the writer produced, with no extra chunks, gives the pixels back.
proof fn lemma_round_trip(w: u32, h: u32, p: Seq<Color>, z: Seq<u8>, bytes: Seq<u8>)
    requires
        valid_size(w, h, p.len()),
        z.len() <= u32::MAX,
        zlib_inflated(z) == Some(raw_rows(p, w as nat, h as nat)),
        bytes == signature() + chunks_bytes(encoded_chunks(w, h, z, seq![])),
    ensures
        decode_png(bytes) == Ok::<Seq<Color>, PNGError>(p),
{
    lemma_split_encoded(w, h, z, bytes);
    lemma_read_encoded(w, h, z, bytes);
    lemma_pixels_encoded(w, h, p, read_png(bytes)->Ok_0);
    reveal(decode_png);
}

proof fn lemma_stream_layout(w: u32, h: u32, z: Seq<u8>, vs: Seq<ChunkView>, out: Seq<u8>)
    requires
        out == signature() + chunk_bytes(made_chunk(ihdr_tag(), header_bytes(encode_header(w, h))))
            + chunk_bytes(made_chunk(idat_tag(), z)) + chunks_bytes(vs) + chunk_bytes(made_chunk(iend_tag(), seq![])),
    ensures
        out == signature() + chunks_bytes(encoded_chunks(w, h, z, vs)),
{
    let v0 = made_chunk(ihdr_tag(), header_bytes(encode_header(w, h)));
    let v1 = made_chunk(idat_tag(), z);
    let v2 = made_chunk(iend_tag(), seq![]);
    lemma_chunks_bytes_append(seq![v0, v1] + vs, seq![v2]);
    lemma_chunks_bytes_append(seq![v0, v1], vs);
    lemma_chunks_bytes_append(seq![v0], seq![v1]);
    assert(seq![v0] + seq![v1] =~= seq![v0, v1]);
    lemma_chunks_bytes_single(v0);
    lemma_chunks_bytes_single(v1);
    lemma_chunks_bytes_single(v2);
    assert(out =~= signature() + chunks_bytes(encoded_chunks(w, h, z, vs)));
}

/// Writes a pixel buffer as an 8-bit RGBA PNG stream.
pub struct PngWriter<'a> {
    width: u32,
    height: u32,
    pixels: &'a [Color],
    chunks: Vec<Chunk>,
}

impl<'a> PngWriter<'a> {
    pub closed spec fn width_spec(&self) -> u32 { self.width }

    pub closed spec fn height_spec(&self) -> u32 { self.height }

    pub closed spec fn pixels_spec(&self) -> Seq<Color> { self.pixels@ }

    /// The extra chunks, written between the image data and the end chunk.
    pub closed spec fn chunks_spec(&self) -> Seq<ChunkView> { views(self.chunks@) }

    pub closed spec fn wf(&self) -> bool {
        valid_size(self.width, self.height, self.pixels@.len())
    }

    /// A writer for a `width` by `height` image; `InvalidImageSize` unless
    /// both are positive and the buffer holds exactly `width * height` pixels.
    pub fn new(width: u32, height: u32, pixels: &'a [Color]) -> (r: Result<Self, PNGError>)
        ensures
            valid_size(width, height, pixels@.len()) ==> r is Ok && r->Ok_0.wf() && r->Ok_0.width_spec() == width
                && r->Ok_0.height_spec() == height && r->Ok_0.pixels_spec() == pixels@
                && r->Ok_0.chunks_spec() == Seq::<ChunkView>::empty(),
            !valid_size(width, height, pixels@.len()) ==> r is Err && r->Err_0 == PNGError::InvalidImageSize,
    {
        proof {
            assert(width as u64 * height as u64 <= 0xffff_ffffu64 * 0xffff_ffffu64) by (nonlinear_arith)
                requires width <= 0xffff_ffffu32, height <= 0xffff_ffffu32;
            assert(height as u128 * (4 * width as u128 + 1) <= 0xffff_ffffu128 * 0x4_0000_0000u128) by (nonlinear_arith)
                requires width <= 0xffff_ffffu32, height <= 0xffff_ffffu32;
        }
        let area: u64 = width as u64 * height as u64;
        let scan: u128 = height as u128 * (4 * width as u128 + 1);
        if width > 0 && height > 0 && area == pixels.len() as u64 && scan <= usize::MAX as u128 {
            let chunks: Vec<Chunk> = Vec::new();
            assert(views(chunks@) =~= Seq::<ChunkView>::empty());
            Ok(PngWriter { width, height, pixels, chunks })
        } else {
            Err(PNGError::InvalidImageSize)
        }
    }

    /// Adds a chunk to write after the image data.
    pub fn add_chunk(&mut self, chunk: Chunk)
        ensures
            final(self).wf() == old(self).wf(),
            final(self).width_spec() == old(self).width_spec(),
            final(self).height_spec() == old(self).height_spec(),
            final(self).pixels_spec() == old(self).pixels_spec(),
            final(self).chunks_spec() == old(self).chunks_spec().push(chunk@),
    {
        let ghost before = self.chunks@;
        self.chunks.push(chunk);
        assert(views(self.chunks@) =~= views(before).push(chunk@));
    }

    /// Removes every extra chunk of type `c_type`, keeping the others in order.
    pub fn remove_chunks(&mut self, c_type: [u8; 4])
        ensures
            final(self).wf() == old(self).wf(),
            final(self).width_spec() == old(self).width_spec(),
            final(self).height_spec() == old(self).height_spec(),
            final(self).pixels_spec() == old(self).pixels_spec(),
            final(self).chunks_spec() == old(self).chunks_spec().filter(|c: ChunkView| c.c_type != c_type@),
    {
        let ghost old_views = views(self.chunks@);
        let mut kept: Vec<Chunk> = Vec::new();
        let mut i: usize = 0;
        while i < self.chunks.len()
            invariant
                i <= self.chunks@.len(),
                old_views == views(self.chunks@),
                views(kept@) == old_views.subrange(0, i as int).filter(|c: ChunkView| c.c_type != c_type@),
            decreases self.chunks.len() - i,
        {
            let c = &self.chunks[i];
            let t = c.c_type();
            proof {
                assert(old_views.subrange(0, i as int + 1).drop_last() =~= old_views.subrange(0, i as int));
                reveal(Seq::filter);
                assert(old_views.subrange(0, i as int).push(c@) =~= old_views.subrange(0, i as int + 1));
            }
            if !(t[0] == c_type[0] && t[1] == c_type[1] && t[2] == c_type[2] && t[3] == c_type[3]) {
                let ghost before = kept@;
                kept.push(c.duplicate());
                proof {
                    assert(views(kept@) =~= views(before).push(c@));
                    if c@.c_type == c_type@ {
                        assert(t@[0] == c_type@[0] && t@[1] == c_type@[1] && t@[2] == c_type@[2] && t@[3] == c_type@[3]);
                    }
                }
            } else {
                assert(t@ =~= c_type@);
            }
            i = i + 1;
        }
        assert(old_views.subrange(0, old_views.len() as int) =~= old_views);
        self.chunks = kept;
    }

    /// Removes the extra chunk at `index`.
    pub fn remove(&mut self, index: usize)
        requires
            index < old(self).chunks_spec().len(),
        ensures
            final(self).wf() == old(self).wf(),
            final(self).width_spec() == old(self).width_spec(),
            final(self).height_spec() == old(self).height_spec(),
            final(self).pixels_spec() == old(self).pixels_spec(),
            final(self).chunks_spec() == old(self).chunks_spec().remove(index as int),
    {
        let ghost before = self.chunks@;
        self.chunks.remove(index);
        assert(views(self.chunks@) =~= views(before).remove(index as int));
    }

    /// The extra chunk at `index`, if there is one.
    pub fn get_chunk(&self, index: usize) -> (r: Option<&Chunk>)
        ensures
            index < self.chunks_spec().len() ==> r is Some && r->Some_0@ == self.chunks_spec()[index as int],
            index >= self.chunks_spec().len() ==> r is None,
    {
        if index < self.chunks.len() {
            Some(&self.chunks[index])
        } else {
            None
        }
    }

    /// The unfiltered scanlines: a zero filter tag, then four bytes per pixel.
    fn scanlines(&self) -> (raw: Vec<u8>)
        requires
            self.wf(),
        ensures
            raw@ == raw_rows(self.pixels@, self.width as nat, self.height as nat),
    {
        let w = self.width as usize;
        let h = self.height as usize;
        let ghost p = self.pixels@;
        let n = self.pixels.len();
        let mut raw: Vec<u8> = Vec::new();
        let mut r: usize = 0;
        let mut base: usize = 0;
        while r < h
            invariant
                w == self.width,
                h == self.height,
                p == self.pixels@,
                n == p.len(),
                valid_size(self.width, self.height, p.len()),
                r <= h,
                base == r * w,
                raw@ == raw_rows(p, w as nat, r as nat),
            decreases h - r,
        {
            raw.push(0);
            let ghost row_start = raw@;
            proof {
                assert(base + w == (r + 1) * w && (r + 1) * w <= w * h) by (nonlinear_arith)
                    requires base == r * w, r + 1 <= h;
            }
            let mut c: usize = 0;
            while c < w
                invariant
                    w == self.width,
                    h == self.height,
                    p == self.pixels@,
                    p.len() == w * h,
                    n == p.len(),
                    base + w <= p.len(),
                    c <= w,
                    raw@ == row_start + pixels_bytes(p.subrange(base as int, (base + c) as int)),
                decreases w - c,
            {
                let px = self.pixels[base + c];
                let bytes = px.as_bytes();
                append_bytes(&mut raw, &bytes);
                proof {
                    assert(p.subrange(base as int, (base + c + 1) as int) =~= p.subrange(base as int, (base + c) as int).push(px));
                    lemma_pixels_bytes_push(p.subrange(base as int, (base + c) as int), px);
                }
                c = c + 1;
            }
            proof {
                assert(base + w == (r + 1) * w && (r + 1) * w <= w * h) by (nonlinear_arith)
                    requires base == r * w, r + 1 <= h;
                assert(p.subrange(base as int, (base + w) as int) == p.subrange((r * w) as int, ((r + 1) * w) as int));
            }
            base = base + w;
            r = r + 1;
        }
        raw
    }

    /// The stream: signature, header chunk, one image data chunk holding
    /// the compressed unfiltered rows, the extra chunks, the end chunk.
    /// Without extra chunks, reading the stream back gives the pixels.
    pub fn write(&self) -> (r: Result<Vec<u8>, PNGError>)
        requires
            self.wf(),
        ensures
            match encode_png(self.width_spec(), self.height_spec(), self.pixels_spec(), self.chunks_spec()) {
                Ok(b) => r is Ok && r->Ok_0@ == b,
                Err(e) => r == Err::<Vec<u8>, PNGError>(e),
            },
            self.chunks_spec().len() == 0 && r is Ok ==> decode_png(r->Ok_0@) == Ok::<Seq<Color>, PNGError>(self.pixels_spec()),
    {
        let raw = self.scanlines();
        let ghost p = self.pixels@;
        let z = compress_zlib(raw.as_slice());
        if z.len() as u64 > 0xffff_ffffu64 {
            return Err(PNGError::InvalidImageSize);
        }
        let ghost zs = z@;
        let mut out: Vec<u8> = Vec::new();
        out.push(137);
        out.push(80);
        out.push(78);
        out.push(71);
        out.push(13);
        out.push(10);
        out.push(26);
        out.push(10);
        assert(out@ =~= signature());
        let header = PngHeader { width: self.width, height: self.height, bit_depth: 8, color_type: 6, compression: 0, filter: 0, interlace: 0 };
        let table = CrcTable::new();
        let c0 = header.to_chunk_with(&table);
        c0.write_all(&mut out);
        let c1 = Chunk::new_with([73, 68, 65, 84], z, &table);
        c1.write_all(&mut out);
        let ghost head = out@;
        proof {
            reveal(chunks_bytes);
            assert(views(self.chunks@).subrange(0, 0) =~= Seq::<ChunkView>::empty());
            assert(chunks_bytes(Seq::<ChunkView>::empty()) =~= Seq::<u8>::empty());
            assert(head + Seq::<u8>::empty() =~= head);
        }
        let mut i: usize = 0;
        while i < self.chunks.len()
            invariant
                i <= self.chunks@.len(),
                out@ == head + chunks_bytes(views(self.chunks@).subrange(0, i as int)),
            decreases self.chunks.len() - i,
        {
            self.chunks[i].write_all(&mut out);
            proof {
                let vs = views(self.chunks@);
                assert(vs.subrange(0, i as int + 1) =~= vs.subrange(0, i as int) + seq![vs[i as int]]);
                lemma_chunks_bytes_append(vs.subrange(0, i as int), seq![vs[i as int]]);
                lemma_chunks_bytes_single(vs[i as int]);
            }
            i = i + 1;
        }
        let c2 = Chunk::new_with([73, 69, 78, 68], Vec::new(), &table);
        c2.write_all(&mut out);
        proof {
            let vs = views(self.chunks@);
            assert(vs.subrange(0, vs.len() as int) =~= vs);
            let v0 = made_chunk(ihdr_tag(), header_bytes(encode_header(self.width, self.height)));
            let v1 = made_chunk(idat_tag(), zs);
            let v2 = made_chunk(iend_tag(), seq![]);
            assert([73u8, 68u8, 65u8, 84u8]@ =~= idat_tag());
            assert([73u8, 69u8, 78u8, 68u8]@ =~= iend_tag());
            assert(c0@ == v0);
            assert(c1@ == v1);
            assert(c2@.data =~= Seq::<u8>::empty());
            assert(c2@ == v2);
            lemma_stream_layout(self.width, self.height, zs, vs, out@);
            if vs.len() == 0 {
                assert(vs =~= Seq::<ChunkView>::empty());
                lemma_round_trip(self.width, self.height, p, zs, out@);
            }
        }
        Ok(out)
    }
}

} // verus!
