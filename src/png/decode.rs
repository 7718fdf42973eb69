//! Reading a PNG stream: signature, chunk interpretation, scanline
//! reconstruction and pixel expansion.
use vstd::prelude::*;
use vstd::slice::slice_subrange;
use crate::color::Color;
use crate::png::bytes::{append_bytes, copy_range};
use crate::png::crc::CrcTable;
use crate::png::chunk::{Chunk, ChunkView, crc_ok, split_chunks, split_into_chunks, views};
use crate::png::filter::{FilterType, filter_of, remove_filter, unfilter_row};
use crate::png::header::{PngHeader, PLTE, tRNS, parse_header, parse_palette, palette_of, alphas_of,
    parse_ihdr_data, bpp_of, row_len_of};
use crate::png::unpack::{unpack_row, unpack_row_spec};
use crate::png::zlib::{decompress_zlib, zlib_inflated};
use crate::png::PNGError;

verus! {

/// The eight bytes every PNG stream starts with.
pub open spec fn signature() -> Seq<u8> {
    seq![137u8, 80u8, 78u8, 71u8, 13u8, 10u8, 26u8, 10u8]
}

pub open spec fn ihdr_tag() -> Seq<u8> { seq![73u8, 72u8, 68u8, 82u8] }
pub open spec fn plte_tag() -> Seq<u8> { seq![80u8, 76u8, 84u8, 69u8] }
pub open spec fn idat_tag() -> Seq<u8> { seq![73u8, 68u8, 65u8, 84u8] }
pub open spec fn iend_tag() -> Seq<u8> { seq![73u8, 69u8, 78u8, 68u8] }
pub open spec fn trns_tag() -> Seq<u8> { seq![116u8, 82u8, 78u8, 83u8] }

/// Header, palette, image data and end chunks are critical: a CRC mismatch
/// in one of them is fatal.
pub open spec fn is_critical(t: Seq<u8>) -> bool {
    t == ihdr_tag() || t == plte_tag() || t == idat_tag() || t == iend_tag()
}

/// What a decoded stream holds, apart from its pixels.
pub struct PngImageView {
    pub header: PngHeader,
    pub palette: Option<Seq<Color>>,
    pub trns: Option<Seq<u8>>,
    pub idat: Seq<u8>,
    pub others: Seq<ChunkView>,
}

/// The interpretation of the chunks read so far.
pub struct DecodeState {
    pub image: PngImageView,
    pub iend: bool,
}

pub open spec fn initial_state(h: PngHeader) -> DecodeState {
    DecodeState {
        image: PngImageView { header: h, palette: None, trns: None, idat: seq![], others: seq![] },
        iend: false,
    }
}

/// Interprets one chunk after the header: a bad CRC on a critical chunk is
/// fatal and on any other the chunk is skipped; image data is appended;
/// later header chunks are ignored; every other chunk is kept, and a
/// transparency chunk also fills the transparency table.
pub open spec fn step(st: DecodeState, c: ChunkView) -> Result<DecodeState, PNGError> {
    if !crc_ok(c) {
        if is_critical(c.c_type) { Err(PNGError::CrcMismatch) } else { Ok(st) }
    } else if c.c_type == idat_tag() {
        Ok(DecodeState { image: PngImageView { idat: st.image.idat + c.data, ..st.image }, ..st })
    } else if c.c_type == plte_tag() {
        match parse_palette(c.data) {
            Ok(p) => Ok(DecodeState { image: PngImageView { palette: Some(p), ..st.image }, ..st }),
            Err(e) => Err(e),
        }
    } else if c.c_type == ihdr_tag() {
        Ok(st)
    } else if c.c_type == iend_tag() {
        Ok(DecodeState { iend: true, ..st })
    } else if c.c_type == trns_tag() {
        Ok(DecodeState {
            image: PngImageView { trns: Some(alphas_of(c.data)), others: st.image.others.push(c), ..st.image },
            ..st
        })
    } else {
        Ok(DecodeState { image: PngImageView { others: st.image.others.push(c), ..st.image }, ..st })
    }
}

/// Interprets the chunks in order; the first error wins.
pub open spec fn fold_chunks(st: DecodeState, cs: Seq<ChunkView>) -> Result<DecodeState, PNGError>
    decreases cs.len(),
{
    if cs.len() == 0 {
        Ok(st)
    } else {
        match fold_chunks(st, cs.drop_last()) {
            Ok(s) => step(s, cs.last()),
            Err(e) => Err(e),
        }
    }
}

/// Interprets a chunk sequence: it must open with a valid header chunk and
/// hold an end chunk.
pub open spec fn read_chunks(cs: Seq<ChunkView>) -> Result<PngImageView, PNGError> {
    if cs.len() == 0 || cs[0].c_type != ihdr_tag() {
        Err(PNGError::MalformedHeader)
    } else if !crc_ok(cs[0]) {
        Err(PNGError::CrcMismatch)
    } else {
        match parse_header(cs[0].data) {
            Err(e) => Err(e),
            Ok(h) => match fold_chunks(initial_state(h), cs.drop_first()) {
                Err(e) => Err(e),
                Ok(st) => if st.iend { Ok(st.image) } else { Err(PNGError::MissingIend) },
            },
        }
    }
}

/// Whether a byte stream starts with the PNG signature.
pub open spec fn has_signature(bytes: Seq<u8>) -> bool {
    bytes.len() >= 8 && bytes.subrange(0, 8) == signature()
}

/// Reads a whole PNG stream.
pub open spec fn read_png(bytes: Seq<u8>) -> Result<PngImageView, PNGError> {
    if !has_signature(bytes) {
        Err(PNGError::InvalidSignature)
    } else {
        match split_chunks(bytes.subrange(8, bytes.len() as int)) {
            None => Err(PNGError::MalformedChunk),
            Some(cs) => read_chunks(cs),
        }
    }
}

/// A row of `n` zero bytes: the context of the first scanline.
pub open spec fn zeros(n: nat) -> Seq<u8> {
    Seq::new(n, |i: int| 0u8)
}

/// Unfiltered scanline `k` of inflated image data with rows of `rl` bytes.
pub open spec fn unfiltered_row(raw: Seq<u8>, rl: nat, bpp: nat, k: nat) -> Seq<u8>
    decreases k,
{
    let prev = if k == 0 { zeros(rl) } else { unfiltered_row(raw, rl, bpp, (k - 1) as nat) };
    let start = (k * (rl + 1)) as int;
    unfilter_row(filter_of(raw[start]), raw.subrange(start + 1, start + 1 + rl), prev, bpp)
}

/// Number of whole scanlines in inflated image data; a trailing partial one is ignored.
pub open spec fn row_count(raw: Seq<u8>, rl: nat) -> nat {
    raw.len() / (rl + 1)
}

/// The first `n` unfiltered scanlines, concatenated.
pub open spec fn unfiltered_data(raw: Seq<u8>, rl: nat, bpp: nat, n: nat) -> Seq<u8>
    decreases n,
{
    if n == 0 { seq![] } else { unfiltered_data(raw, rl, bpp, (n - 1) as nat) + unfiltered_row(raw, rl, bpp, (n - 1) as nat) }
}

/// The pixels of the first `n` scanlines.
pub open spec fn pixel_rows(h: PngHeader, pal: Seq<Color>, raw: Seq<u8>, n: nat) -> Seq<Color>
    decreases n,
{
    if n == 0 {
        seq![]
    } else {
        pixel_rows(h, pal, raw, (n - 1) as nat)
            + unpack_row_spec(h, pal, unfiltered_row(raw, row_len_of(h), bpp_of(h), (n - 1) as nat))
    }
}

/// The palette pixels are looked up in: the PLTE table, or 256 times opaque
/// black when the stream has none.
pub open spec fn palette_or_default(img: PngImageView) -> Seq<Color> {
    match img.palette {
        Some(p) => p,
        None => palette_of(seq![]),
    }
}

/// Scanlines read from inflated image data: the whole ones, at most the
/// header's height.
pub open spec fn rows_read(raw: Seq<u8>, h: PngHeader) -> nat {
    let n = row_count(raw, row_len_of(h));
    if n < h.height { n } else { h.height as nat }
}

/// The pixels of a decoded stream, row-major.
pub open spec fn image_pixels(img: PngImageView) -> Result<Seq<Color>, PNGError> {
    match zlib_inflated(img.idat) {
        None => Err(PNGError::DecompressionFailure),
        Some(raw) => {
            let rl = row_len_of(img.header);
            Ok(pixel_rows(img.header, palette_or_default(img), raw, rows_read(raw, img.header)))
        },
    }
}

/// The reconstructed scanline bytes of a decoded stream.
pub open spec fn image_bytes(img: PngImageView) -> Result<Seq<u8>, PNGError> {
    match zlib_inflated(img.idat) {
        None => Err(PNGError::DecompressionFailure),
        Some(raw) => {
            let rl = row_len_of(img.header);
            Ok(unfiltered_data(raw, rl, bpp_of(img.header), rows_read(raw, img.header)))
        },
    }
}

/// Decodes a PNG stream to its pixels.
#[verifier::opaque]
pub open spec fn decode_png(bytes: Seq<u8>) -> Result<Seq<Color>, PNGError> {
    match read_png(bytes) {
        Ok(img) => image_pixels(img),
        Err(e) => Err(e),
    }
}

proof fn lemma_row_available(len: int, rl1: int, k: int)
    requires
        rl1 > 0,
        k >= 0,
        k * rl1 <= len,
    ensures
        (len - k * rl1 >= rl1) == (k < len / rl1),
        (k + 1) * rl1 == k * rl1 + rl1,
{
    assert((k + 1) * rl1 == k * rl1 + rl1) by (nonlinear_arith);
    vstd::arithmetic::div_mod::lemma_fundamental_div_mod(len, rl1);
    let q = len / rl1;
    let m = len % rl1;
    assert(0 <= m < rl1) by {
        vstd::arithmetic::div_mod::lemma_mod_bound(len, rl1);
    }
    assert(len == q * rl1 + m) by (nonlinear_arith)
        requires len == rl1 * q + m;
    if k < q {
        assert((k + 1) * rl1 <= q * rl1) by (nonlinear_arith)
            requires k + 1 <= q, rl1 > 0;
    } else {
        assert(k * rl1 >= q * rl1) by (nonlinear_arith)
            requires k >= q, rl1 > 0;
    }
}

/// An error while interpreting a prefix of the chunks is the error of the whole.
pub proof fn lemma_fold_error_extends(st: DecodeState, cs: Seq<ChunkView>, n: nat)
    requires
        n <= cs.len(),
        fold_chunks(st, cs.subrange(0, n as int)) is Err,
    ensures
        fold_chunks(st, cs) == fold_chunks(st, cs.subrange(0, n as int)),
    decreases cs.len() - n,
{
    if n < cs.len() {
        let next = cs.subrange(0, n as int + 1);
        assert(next.drop_last() =~= cs.subrange(0, n as int));
        lemma_fold_error_extends(st, cs, (n + 1) as nat);
    } else {
        assert(cs.subrange(0, n as int) =~= cs);
    }
}

/// A pull cursor over the scanlines of inflated image data: each call
/// reconstructs the next row against the previous one.
pub struct RowDecoder<'a> {
    row_len: usize,
    start: usize,
    data: &'a [u8],
    bpp: usize,
    previous_row: Vec<u8>,
    rows: Ghost<nat>,
}

impl<'a> RowDecoder<'a> {
    pub closed spec fn wf(&self) -> bool {
        &&& self.bpp >= 1
        &&& self.start as int == self.rows@ * (self.row_len + 1)
        &&& self.start <= self.data@.len()
        &&& self.previous_row@.len() == self.row_len
        &&& self.previous_row@ == if self.rows@ == 0 { zeros(self.row_len as nat) } else {
            unfiltered_row(self.data@, self.row_len as nat, self.bpp as nat, (self.rows@ - 1) as nat) }
    }

    pub closed spec fn source(&self) -> Seq<u8> { self.data@ }

    pub closed spec fn row_len_spec(&self) -> nat { self.row_len as nat }

    pub closed spec fn bpp_spec(&self) -> nat { self.bpp as nat }

    /// Rows handed out so far.
    pub closed spec fn rows_done(&self) -> nat { self.rows@ }

    /// A cursor before the first row of `data`, with rows of `row_len`
    /// bytes (plus the filter tag) and `bpp` bytes per pixel.
    pub fn new(data: &'a [u8], row_len: usize, bpp: usize) -> (d: Self)
        requires
            bpp >= 1,
        ensures
            d.wf(),
            d.source() == data@,
            d.row_len_spec() == row_len,
            d.bpp_spec() == bpp,
            d.rows_done() == 0,
    {
        let mut previous_row: Vec<u8> = Vec::with_capacity(row_len);
        let mut i: usize = 0;
        while i < row_len
            invariant
                i <= row_len,
                previous_row@ =~= zeros(row_len as nat).subrange(0, i as int),
            decreases row_len - i,
        {
            previous_row.push(0);
            i = i + 1;
        }
        assert(zeros(row_len as nat).subrange(0, row_len as int) =~= zeros(row_len as nat));
        let d = RowDecoder { row_len, start: 0, data, bpp, previous_row, rows: Ghost(0) };
        assert(0 * (row_len + 1) == 0);
        d
    }

    /// The next reconstructed row, or `None` once no whole row is left.
    pub fn next_row(&mut self) -> (r: Option<Vec<u8>>)
        requires
            old(self).wf(),
        ensures
            final(self).wf(),
            final(self).source() == old(self).source(),
            final(self).row_len_spec() == old(self).row_len_spec(),
            final(self).bpp_spec() == old(self).bpp_spec(),
            old(self).rows_done() < row_count(old(self).source(), old(self).row_len_spec()) ==> r is Some
                && r->Some_0@ == unfiltered_row(old(self).source(), old(self).row_len_spec(), old(self).bpp_spec(), old(self).rows_done())
                && final(self).rows_done() == old(self).rows_done() + 1,
            old(self).rows_done() >= row_count(old(self).source(), old(self).row_len_spec()) ==> r is None
                && final(self).rows_done() == old(self).rows_done(),
    {
        let ghost k = self.rows@;
        proof { lemma_row_available(self.data@.len() as int, self.row_len + 1, k as int); }
        if self.data.len() - self.start <= self.row_len {
            return None;
        }
        proof { lemma_unfiltered_row_len(self.data@, self.row_len as nat, self.bpp as nat, k); }
        let tag = self.data[self.start];
        let mut current = copy_range(self.data, self.start + 1, self.start + 1 + self.row_len);
        remove_filter(&mut current, self.previous_row.as_slice(), FilterType::from_byte(tag), self.bpp);
        self.previous_row = copy_range(current.as_slice(), 0, current.len());
        assert(self.previous_row@ =~= current@);
        self.start = self.start + 1 + self.row_len;
        self.rows = Ghost(k + 1);
        Some(current)
    }
}

fn tag_is(t: &[u8; 4], a: u8, b: u8, c: u8, d: u8) -> (r: bool)
    ensures
        r == (t@ == seq![a, b, c, d]),
{
    let r = t[0] == a && t[1] == b && t[2] == c && t[3] == d;
    proof {
        if r {
            assert(t@ =~= seq![a, b, c, d]);
        }
        if t@ == seq![a, b, c, d] {
            assert(t@[0] == a && t@[1] == b && t@[2] == c && t@[3] == d);
        }
    }
    r
}

/// A decoded PNG stream: header, tables, compressed image data and the
/// ancillary chunks it carried.
pub struct PngImage {
    header: PngHeader,
    plte: Option<PLTE>,
    trns: Option<tRNS>,
    idat: Vec<u8>,
    other_chunks: Vec<Chunk>,
}

impl View for PngImage {
    type V = PngImageView;

    closed spec fn view(&self) -> PngImageView {
        PngImageView {
            header: self.header,
            palette: match self.plte { Some(p) => Some(p@), None => None },
            trns: match self.trns { Some(t) => Some(t@), None => None },
            idat: self.idat@,
            others: views(self.other_chunks@),
        }
    }
}

impl PngImage {
    /// The image header.
    pub fn header(&self) -> (h: PngHeader)
        ensures
            h == self@.header,
    {
        self.header
    }

    /// Image width in pixels.
    pub fn width(&self) -> (w: u32)
        ensures
            w == self@.header.width,
    {
        self.header.width
    }

    /// Image height in pixels.
    pub fn height(&self) -> (h: u32)
        ensures
            h == self@.header.height,
    {
        self.header.height
    }

    /// Bytes per pixel, rounded up, at least 1.
    pub fn bytes_per_pixel(&self) -> (r: usize)
        ensures
            r as nat == bpp_of(self@.header),
    {
        self.header.bytes_per_pixel()
    }

    /// Bytes in one unfiltered scanline.
    pub fn row_length(&self) -> (r: u64)
        ensures
            r as nat == row_len_of(self@.header),
    {
        self.header.row_length()
    }

    /// The chunks of the stream, in stream order, whose CRC checks and whose
    /// type is none of header, palette, image data and end.
    pub fn non_data_chunks(&self) -> (r: &Vec<Chunk>)
        ensures
            views(r@) == self@.others,
    {
        &self.other_chunks
    }

    /// Alpha of palette entry `index`, from the transparency table (255 without one).
    pub fn palette_alpha(&self, index: u8) -> (a: u8)
        ensures
            a == match self@.trns { Some(t) => t[index as int], None => 255u8 },
    {
        match &self.trns {
            Some(t) => t.alpha(index),
            None => 255,
        }
    }

    /// Inflates the image data and undoes the scanline filters: the raw
    /// sample bytes, row after row.
    pub fn image_data(&self) -> (r: Result<Vec<u8>, PNGError>)
        ensures
            match image_bytes(self@) {
                Ok(v) => r is Ok && r->Ok_0@ == v,
                Err(e) => r == Err::<Vec<u8>, PNGError>(e),
            },
    {
        let raw = match decompress_zlib(self.idat.as_slice()) {
            Ok(v) => v,
            Err(e) => {
                return Err(e);
            },
        };
        let bpp = self.header.bytes_per_pixel();
        let rl64 = self.header.row_length();
        let mut out: Vec<u8> = Vec::new();
        if rl64 >= raw.len() as u64 {
            assert(row_count(raw@, rl64 as nat) == 0) by {
                vstd::arithmetic::div_mod::lemma_basic_div(raw@.len() as int, rl64 + 1);
            }
            assert(out@ =~= unfiltered_data(raw@, rl64 as nat, bpp as nat, 0));
            return Ok(out);
        }
        let rl = rl64 as usize;
        let mut decoder = RowDecoder::new(raw.as_slice(), rl, bpp);
        let mut rows: u64 = 0;
        loop
            invariant
                decoder.wf(),
                decoder.source() == raw@,
                decoder.row_len_spec() == rl,
                decoder.bpp_spec() == bpp,
                rl == row_len_of(self@.header),
                bpp == bpp_of(self@.header),
                zlib_inflated(self@.idat) == Some(raw@),
                decoder.rows_done() <= row_count(raw@, rl as nat),
                decoder.rows_done() <= self@.header.height,
                rows == decoder.rows_done(),
                out@ == unfiltered_data(raw@, rl as nat, bpp as nat, decoder.rows_done()),
            decreases row_count(raw@, rl as nat) - decoder.rows_done(),
        {
            if rows == self.header.height as u64 {
                return Ok(out);
            }
            match decoder.next_row() {
                Some(row) => {
                    append_bytes(&mut out, row.as_slice());
                    rows = rows + 1;
                },
                None => {
                    return Ok(out);
                },
            }
        }
    }

    /// The pixels of the image, row-major: width times the number of whole
    /// scanlines, at most height of them. An indexed image without a palette looks its indices up
    /// in 256 entries of opaque black.
    pub fn pixels(&self) -> (r: Result<Vec<Color>, PNGError>)
        ensures
            match image_pixels(self@) {
                Ok(v) => r is Ok && r->Ok_0@ == v,
                Err(e) => r == Err::<Vec<Color>, PNGError>(e),
            },
    {
        let raw = match decompress_zlib(self.idat.as_slice()) {
            Ok(v) => v,
            Err(e) => {
                return Err(e);
            },
        };
        let bpp = self.header.bytes_per_pixel();
        let rl64 = self.header.row_length();
        let mut out: Vec<Color> = Vec::new();
        if rl64 >= raw.len() as u64 {
            assert(row_count(raw@, rl64 as nat) == 0) by {
                vstd::arithmetic::div_mod::lemma_basic_div(raw@.len() as int, rl64 + 1);
            }
            assert(out@ =~= pixel_rows(self@.header, palette_or_default(self@), raw@, 0));
            return Ok(out);
        }
        let default_palette = PLTE::empty();
        let palette: &PLTE = match &self.plte {
            Some(p) => p,
            None => &default_palette,
        };
        assert(palette@ == palette_or_default(self@));
        let rl = rl64 as usize;
        let mut decoder = RowDecoder::new(raw.as_slice(), rl, bpp);
        let mut rows: u64 = 0;
        loop
            invariant
                decoder.wf(),
                decoder.source() == raw@,
                decoder.row_len_spec() == rl,
                decoder.bpp_spec() == bpp,
                rl == row_len_of(self@.header),
                bpp == bpp_of(self@.header),
                palette@ == palette_or_default(self@),
                zlib_inflated(self@.idat) == Some(raw@),
                decoder.rows_done() <= row_count(raw@, rl as nat),
                decoder.rows_done() <= self@.header.height,
                rows == decoder.rows_done(),
                out@ == pixel_rows(self@.header, palette@, raw@, decoder.rows_done()),
            decreases row_count(raw@, rl as nat) - decoder.rows_done(),
        {
            if rows == self.header.height as u64 {
                return Ok(out);
            }
            match decoder.next_row() {
                Some(row) => {
                    proof { lemma_unfiltered_row_len(raw@, rl as nat, bpp as nat, (decoder.rows_done() - 1) as nat); }
                    let px = unpack_row(row.as_slice(), &self.header, palette);
                    let mut i: usize = 0;
                    let ghost before = out@;
                    while i < px.len()
                        invariant
                            i <= px@.len(),
                            out@ == before + px@.subrange(0, i as int),
                        decreases px.len() - i,
                    {
                        out.push(px[i]);
                        i = i + 1;
                        assert(out@ =~= before + px@.subrange(0, i as int));
                    }
                    assert(px@.subrange(0, px@.len() as int) =~= px@);
                    rows = rows + 1;
                },
                None => {
                    return Ok(out);
                },
            }
        }
    }
}

proof fn lemma_unfiltered_row_len(raw: Seq<u8>, rl: nat, bpp: nat, k: nat)
    requires
        (k + 1) * (rl + 1) <= raw.len(),
    ensures
        unfiltered_row(raw, rl, bpp, k).len() == rl,
{
    let start = (k * (rl + 1)) as int;
    assert((k + 1) * (rl + 1) == k * (rl + 1) + rl + 1) by (nonlinear_arith);
    let prev = if k == 0 { zeros(rl) } else { unfiltered_row(raw, rl, bpp, (k - 1) as nat) };
    crate::png::filter::lemma_unfilter_row_len(filter_of(raw[start]), raw.subrange(start + 1, start + 1 + rl), prev, bpp);
}

/// The chunks interpreted so far while reading a stream.
struct ReadState {
    header: PngHeader,
    plte: Option<PLTE>,
    trns: Option<tRNS>,
    idat: Vec<u8>,
    others: Vec<Chunk>,
    iend: bool,
}

impl View for ReadState {
    type V = DecodeState;

    closed spec fn view(&self) -> DecodeState {
        DecodeState {
            image: PngImageView {
                header: self.header,
                palette: match self.plte { Some(p) => Some(p@), None => None },
                trns: match self.trns { Some(t) => Some(t@), None => None },
                idat: self.idat@,
                others: views(self.others@),
            },
            iend: self.iend,
        }
    }
}

impl ReadState {
    /// Interprets one chunk after the header.
    fn step_chunk(&mut self, c: &Chunk, table: &CrcTable) -> (r: Result<(), PNGError>)
        ensures
            final(self).header == old(self).header,
            match step(old(self)@, c@) {
                Ok(s) => r is Ok && final(self)@ == s,
                Err(e) => r == Err::<(), PNGError>(e),
            },
    {
        let t = c.c_type();
        let ok = c.crc_okay_with(table);
        let critical = tag_is(&t, 73, 72, 68, 82) || tag_is(&t, 80, 76, 84, 69) || tag_is(&t, 73, 68, 65, 84)
            || tag_is(&t, 73, 69, 78, 68);
        if !ok {
            if critical {
                return Err(PNGError::CrcMismatch);
            }
        } else if tag_is(&t, 73, 68, 65, 84) {
            append_bytes(&mut self.idat, c.data());
        } else if tag_is(&t, 80, 76, 84, 69) {
            match PLTE::from_chunk(c) {
                Ok(p) => {
                    self.plte = Some(p);
                },
                Err(e) => {
                    return Err(e);
                },
            }
        } else if tag_is(&t, 73, 72, 68, 82) {
        } else if tag_is(&t, 73, 69, 78, 68) {
            self.iend = true;
        } else if tag_is(&t, 116, 82, 78, 83) {
            self.trns = Some(tRNS::from_data(c.data()));
            let d = c.duplicate();
            let ghost before = self.others@;
            self.others.push(d);
            proof { assert(views(self.others@) =~= views(before).push(c@)); }
        } else {
            let d = c.duplicate();
            let ghost before = self.others@;
            self.others.push(d);
            proof { assert(views(self.others@) =~= views(before).push(c@)); }
        }
        Ok(())
    }
}

/// Reads PNG streams from bytes.
pub struct PngReader;

impl PngReader {
    /// Reads a PNG stream: checks the signature, splits the chunks, and
    /// interprets them.
    pub fn read(data: &[u8]) -> (r: Result<PngImage, PNGError>)
        ensures
            match read_png(data@) {
                Ok(img) => r is Ok && r->Ok_0@ == img,
                Err(e) => r is Err && r->Err_0 == e,
            },
    {
        if data.len() < 8 || !(data[0] == 137 && data[1] == 80 && data[2] == 78 && data[3] == 71
            && data[4] == 13 && data[5] == 10 && data[6] == 26 && data[7] == 10) {
            proof {
                if data@.len() >= 8 && data@.subrange(0, 8) == signature() {
                    assert(data@[0] == data@.subrange(0, 8)[0]);
                    assert(data@[1] == data@.subrange(0, 8)[1]);
                    assert(data@[2] == data@.subrange(0, 8)[2]);
                    assert(data@[3] == data@.subrange(0, 8)[3]);
                    assert(data@[4] == data@.subrange(0, 8)[4]);
                    assert(data@[5] == data@.subrange(0, 8)[5]);
                    assert(data@[6] == data@.subrange(0, 8)[6]);
                    assert(data@[7] == data@.subrange(0, 8)[7]);
                }
            }
            return Err(PNGError::InvalidSignature);
        }
        assert(data@.subrange(0, 8) =~= signature());
        let body = slice_subrange(data, 8, data.len());
        assert(body@ =~= data@.subrange(8, data@.len() as int));
        let chunks = match split_into_chunks(body) {
            Ok(c) => c,
            Err(e) => {
                return Err(e);
            },
        };
        let ghost cs = views(chunks@);
        assert(cs.len() == chunks@.len());
        if chunks.len() == 0 {
            return Err(PNGError::MalformedHeader);
        }
        assert(cs[0] == chunks@[0]@);
        if !tag_is(&chunks[0].c_type(), 73, 72, 68, 82) {
            return Err(PNGError::MalformedHeader);
        }
        let table = CrcTable::new();
        if !chunks[0].crc_okay_with(&table) {
            return Err(PNGError::CrcMismatch);
        }
        let header = match parse_ihdr_data(chunks[0].data()) {
            Ok(h) => h,
            Err(e) => {
                return Err(e);
            },
        };
        let ghost rest = cs.drop_first();
        proof {
            assert(chunks@[0]@.data == cs[0].data);
            assert(rest.subrange(0, 0) =~= Seq::<ChunkView>::empty());
            assert(views(Seq::<Chunk>::empty()) =~= Seq::<ChunkView>::empty());
            assert(Seq::<u8>::empty() =~= seq![]);
        }
        let mut st = ReadState { header, plte: None, trns: None, idat: Vec::new(), others: Vec::new(), iend: false };
        let mut i: usize = 1;
        while i < chunks.len()
            invariant
                1 <= i <= chunks@.len(),
                cs == views(chunks@),
                rest == cs.drop_first(),
                st.header == header,
                cs.len() > 0,
                has_signature(data@),
                split_chunks(data@.subrange(8, data@.len() as int)) == Some(cs),
                cs[0].c_type == ihdr_tag(),
                crc_ok(cs[0]),
                parse_header(cs[0].data) == Ok::<PngHeader, PNGError>(header),
                fold_chunks(initial_state(header), rest.subrange(0, i - 1)) == Ok::<DecodeState, PNGError>(st@),
            decreases chunks.len() - i,
        {
            let c = &chunks[i];
            let ghost prefix = rest.subrange(0, i as int);
            proof {
                assert(prefix.drop_last() =~= rest.subrange(0, i - 1));
                assert(prefix.last() == c@);
            }
            let ghost before = st@;
            match st.step_chunk(c, &table) {
                Ok(()) => {},
                Err(e) => {
                    proof {
                        assert(fold_chunks(initial_state(header), prefix.drop_last()) == Ok::<DecodeState, PNGError>(before));
                        assert(fold_chunks(initial_state(header), prefix) == step(before, c@));
                        lemma_fold_error_extends(initial_state(header), rest, i as nat);
                        assert(fold_chunks(initial_state(header), rest) == Err::<DecodeState, PNGError>(e));
                        assert(parse_header(cs[0].data) == Ok::<PngHeader, PNGError>(header));
                        assert(read_chunks(cs) == Err::<PngImageView, PNGError>(e));
                    }
                    return Err(e);
                },
            }
            i = i + 1;
        }
        assert(rest.subrange(0, chunks@.len() - 1) =~= rest);
        if !st.iend {
            return Err(PNGError::MissingIend);
        }
        Ok(PngImage { header, plte: st.plte, trns: st.trns, idat: st.idat, other_chunks: st.others })
    }
}

/// Any stream that does not start with the eight signature bytes is
/// rejected with `InvalidSignature`, whatever follows.
pub proof fn lemma_signature_rejection(bytes: Seq<u8>)
    requires
        !has_signature(bytes),
    ensures
        read_png(bytes) == Err::<PngImageView, PNGError>(PNGError::InvalidSignature),
        decode_png(bytes) == Err::<Seq<Color>, PNGError>(PNGError::InvalidSignature),
{
    reveal(decode_png);
}

/// `c` with its CRC field replaced.
pub open spec fn with_crc(c: ChunkView, crc: Seq<u8>) -> ChunkView {
    ChunkView { crc, ..c }
}

/// The CRC field with bit `bit` of byte `b` flipped.
pub open spec fn flip_bit(crc: Seq<u8>, b: int, bit: u8) -> Seq<u8> {
    crc.update(b, crc[b] ^ (1u8 << bit))
}

proof fn lemma_flip_differs(crc: Seq<u8>, b: int, bit: u8)
    requires
        0 <= b < crc.len(),
        bit < 8,
    ensures
        flip_bit(crc, b, bit) != crc,
{
    let x = crc[b];
    assert(x ^ (1u8 << bit) != x) by (bit_vector)
        requires bit < 8;
    assert(flip_bit(crc, b, bit)[b] != crc[b]);
}

proof fn lemma_fold_prefix_ok(st: DecodeState, cs: Seq<ChunkView>, n: nat)
    requires
        n <= cs.len(),
        fold_chunks(st, cs) is Ok,
    ensures
        fold_chunks(st, cs.subrange(0, n as int)) is Ok,
{
    if fold_chunks(st, cs.subrange(0, n as int)) is Err {
        lemma_fold_error_extends(st, cs, n);
    }
}

/// Replacing a critical chunk of a stream that decodes by one of the same
/// type whose CRC does not check makes reading fail with `CrcMismatch`.
proof fn lemma_critical_bad_chunk(cs: Seq<ChunkView>, i: int, bad: ChunkView)
    requires
        read_chunks(cs) is Ok,
        0 <= i < cs.len(),
        is_critical(cs[i].c_type),
        bad.c_type == cs[i].c_type,
        !crc_ok(bad),
    ensures
        read_chunks(cs.update(i, bad)) == Err::<PngImageView, PNGError>(PNGError::CrcMismatch),
{
    let cs2 = cs.update(i, bad);
    if i == 0 {
        assert(cs2[0] == bad);
    } else {
        let h = parse_header(cs[0].data)->Ok_0;
        let st0 = initial_state(h);
        let rest = cs.drop_first();
        let rest2 = cs2.drop_first();
        assert(rest2 =~= rest.update(i - 1, bad));
        assert(cs2[0] == cs[0]);
        lemma_fold_prefix_ok(st0, rest, (i - 1) as nat);
        assert(rest2.subrange(0, i - 1) =~= rest.subrange(0, i - 1));
        assert(rest2.subrange(0, i).drop_last() =~= rest.subrange(0, i - 1));
        assert(rest2.subrange(0, i).last() == bad);
        assert(fold_chunks(st0, rest2.subrange(0, i)) == Err::<DecodeState, PNGError>(PNGError::CrcMismatch));
        lemma_fold_error_extends(st0, rest2, i as nat);
    }
}

/// A chunk that decoding accepted has a CRC that checks, when it is critical.
proof fn lemma_critical_crc_ok(cs: Seq<ChunkView>, i: int)
    requires
        read_chunks(cs) is Ok,
        0 <= i < cs.len(),
        is_critical(cs[i].c_type),
    ensures
        crc_ok(cs[i]),
{
    if i > 0 {
        let h = parse_header(cs[0].data)->Ok_0;
        let st0 = initial_state(h);
        let rest = cs.drop_first();
        lemma_fold_prefix_ok(st0, rest, (i - 1) as nat);
        lemma_fold_prefix_ok(st0, rest, i as nat);
        assert(rest.subrange(0, i).drop_last() =~= rest.subrange(0, i - 1));
        assert(rest.subrange(0, i).last() == cs[i]);
    }
}

/// Changing the CRC field of a critical chunk (a single flipped bit) in a
/// stream that decodes makes reading fail with `CrcMismatch`.
pub proof fn lemma_critical_crc_flip(cs: Seq<ChunkView>, i: int, b: int, bit: u8)
    requires
        read_chunks(cs) is Ok,
        0 <= i < cs.len(),
        is_critical(cs[i].c_type),
        0 <= b < cs[i].crc.len(),
        bit < 8,
    ensures
        read_chunks(cs.update(i, with_crc(cs[i], flip_bit(cs[i].crc, b, bit))))
            == Err::<PngImageView, PNGError>(PNGError::CrcMismatch),
{
    lemma_flip_differs(cs[i].crc, b, bit);
    lemma_critical_crc_ok(cs, i);
    lemma_critical_bad_chunk(cs, i, with_crc(cs[i], flip_bit(cs[i].crc, b, bit)));
}

/// `c` with its payload replaced.
pub open spec fn with_data(c: ChunkView, data: Seq<u8>) -> ChunkView {
    ChunkView { data, ..c }
}

/// Flipping a single bit of the payload of a critical chunk (image data,
/// say) in a stream that decodes makes reading fail with `CrcMismatch`.
pub proof fn lemma_critical_payload_flip(cs: Seq<ChunkView>, i: int, j: int, bit: u8)
    requires
        read_chunks(cs) is Ok,
        0 <= i < cs.len(),
        is_critical(cs[i].c_type),
        0 <= j < cs[i].data.len(),
        bit < 8,
    ensures
        read_chunks(cs.update(i, with_data(cs[i], flip_bit(cs[i].data, j, bit))))
            == Err::<PngImageView, PNGError>(PNGError::CrcMismatch),
{
    let c = cs[i];
    let bad = with_data(c, flip_bit(c.data, j, bit));
    lemma_critical_crc_ok(cs, i);
    let t = c.c_type;
    let k = t.len() + j;
    assert((t + c.data).update(k, (t + c.data)[k] ^ (1u8 << bit)) =~= t + bad.data);
    crate::png::crc::lemma_crc32_single_bit(t + c.data, k, bit);
    lemma_critical_bad_chunk(cs, i, bad);
}

/// States that agree on everything the pixels depend on.
pub open spec fn same_image_data(a: DecodeState, b: DecodeState) -> bool {
    a.image.header == b.image.header && a.image.palette == b.image.palette && a.image.idat == b.image.idat
        && a.iend == b.iend
}

proof fn lemma_fold_flip_ancillary(st: DecodeState, rest: Seq<ChunkView>, j: int, bad: ChunkView, n: nat)
    requires
        fold_chunks(st, rest) is Ok,
        0 <= j < rest.len(),
        !is_critical(rest[j].c_type),
        bad.c_type == rest[j].c_type,
        n <= rest.len(),
    ensures
        fold_chunks(st, rest.update(j, bad).subrange(0, n as int)) is Ok,
        same_image_data(fold_chunks(st, rest.subrange(0, n as int))->Ok_0,
            fold_chunks(st, rest.update(j, bad).subrange(0, n as int))->Ok_0),
    decreases n,
{
    let rest2 = rest.update(j, bad);
    lemma_fold_prefix_ok(st, rest, n);
    if n == 0 {
        assert(rest.subrange(0, 0) =~= Seq::<ChunkView>::empty());
        assert(rest2.subrange(0, 0) =~= Seq::<ChunkView>::empty());
    } else {
        let m = (n - 1) as nat;
        lemma_fold_flip_ancillary(st, rest, j, bad, m);
        lemma_fold_prefix_ok(st, rest, m);
        assert(rest.subrange(0, n as int).drop_last() =~= rest.subrange(0, m as int));
        assert(rest2.subrange(0, n as int).drop_last() =~= rest2.subrange(0, m as int));
        let s1 = fold_chunks(st, rest.subrange(0, m as int))->Ok_0;
        let s2 = fold_chunks(st, rest2.subrange(0, m as int))->Ok_0;
        assert(rest.subrange(0, n as int).last() == rest[m as int]);
        assert(rest2.subrange(0, n as int).last() == rest2[m as int]);
        assert(step(s1, rest[m as int]) is Ok);
    }
}

/// Changing the CRC field of an ancillary (non-critical) chunk in a stream
/// that decodes still lets it decode, to the same header, palette and image
/// data, hence the same pixels.
pub proof fn lemma_ancillary_crc_flip(cs: Seq<ChunkView>, i: int, b: int, bit: u8)
    requires
        read_chunks(cs) is Ok,
        0 < i < cs.len(),
        !is_critical(cs[i].c_type),
        0 <= b < cs[i].crc.len(),
        bit < 8,
    ensures
        read_chunks(cs.update(i, with_crc(cs[i], flip_bit(cs[i].crc, b, bit)))) is Ok,
        image_pixels(read_chunks(cs.update(i, with_crc(cs[i], flip_bit(cs[i].crc, b, bit))))->Ok_0)
            == image_pixels(read_chunks(cs)->Ok_0),
{
    let bad = with_crc(cs[i], flip_bit(cs[i].crc, b, bit));
    let cs2 = cs.update(i, bad);
    let h = parse_header(cs[0].data)->Ok_0;
    let st0 = initial_state(h);
    let rest = cs.drop_first();
    let rest2 = cs2.drop_first();
    assert(rest2 =~= rest.update(i - 1, bad));
    assert(cs2[0] == cs[0]);
    lemma_fold_flip_ancillary(st0, rest, i - 1, bad, rest.len());
    assert(rest.subrange(0, rest.len() as int) =~= rest);
    assert(rest2.subrange(0, rest2.len() as int) =~= rest2);
}

} // verus!
