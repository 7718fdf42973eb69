//! The image header and the palette, transparency and gamma tables.
use vstd::prelude::*;
use crate::color::Color;
use crate::png::bytes::{be_bytes, be_u32, be_bytes_to_u32, u32_to_be_bytes, lemma_be_round_trip};
use crate::png::chunk::{Chunk, chunk_view_wf, crc_ok};
use crate::png::crc::CrcTable;
use crate::png::PNGError;

verus! {

pub const GRAY_SCALE_CTYPE: u8 = 0;
pub const RGB_CTYPE: u8 = 2;
pub const PALETTE_INDEX_CTYPE: u8 = 3;
pub const GREY_SCALE_ALPHA_CTYPE: u8 = 4;
pub const RGB_ALPHA_CTYPE: u8 = 6;

/// Length of the header payload.
pub const SZ_IHDR: usize = 13;

/// Image header: dimensions, sample format and the three method bytes.
#[derive(Debug, Default, Clone, Copy, PartialEq, Eq, Structural)]
pub struct PngHeader {
    pub width: u32,
    pub height: u32,
    pub bit_depth: u8,
    pub color_type: u8,
    pub compression: u8,
    pub filter: u8,
    pub interlace: u8,
}

/// The header that a 13-byte payload describes.
pub open spec fn header_of(d: Seq<u8>) -> PngHeader {
    PngHeader {
        width: be_u32(d.subrange(0, 4)) as u32,
        height: be_u32(d.subrange(4, 8)) as u32,
        bit_depth: d[8],
        color_type: d[9],
        compression: d[10],
        filter: d[11],
        interlace: d[12],
    }
}

/// The 13-byte payload of a header.
pub open spec fn header_bytes(h: PngHeader) -> Seq<u8> {
    be_bytes(h.width) + be_bytes(h.height) + seq![h.bit_depth, h.color_type, h.compression, h.filter, h.interlace]
}

/// Legal (color type, bit depth) pairs.
pub open spec fn legal_bit_depth(color_type: u8, bit_depth: u8) -> bool {
    if color_type == GRAY_SCALE_CTYPE {
        bit_depth == 1 || bit_depth == 2 || bit_depth == 4 || bit_depth == 8 || bit_depth == 16
    } else if color_type == RGB_CTYPE {
        bit_depth == 8 || bit_depth == 16
    } else if color_type == PALETTE_INDEX_CTYPE {
        bit_depth == 1 || bit_depth == 2 || bit_depth == 4 || bit_depth == 8
    } else if color_type == GREY_SCALE_ALPHA_CTYPE || color_type == RGB_ALPHA_CTYPE {
        bit_depth == 8 || bit_depth == 16
    } else {
        false
    }
}

/// What parsing a header payload gives.
pub open spec fn parse_header(d: Seq<u8>) -> Result<PngHeader, PNGError> {
    if d.len() != 13 {
        Err(PNGError::MalformedHeader)
    } else if !legal_bit_depth(d[9], d[8]) {
        Err(PNGError::InvalidBitDepth)
    } else if header_of(d).width == 0 || header_of(d).height == 0 {
        Err(PNGError::MalformedHeader)
    } else {
        Ok(header_of(d))
    }
}

/// Samples per pixel of a color type (1 for an unknown one).
pub open spec fn channels(color_type: u8) -> nat {
    if color_type == RGB_CTYPE {
        3
    } else if color_type == GREY_SCALE_ALPHA_CTYPE {
        2
    } else if color_type == RGB_ALPHA_CTYPE {
        4
    } else {
        1
    }
}

/// Bytes per pixel, rounded up, at least 1.
pub open spec fn bpp_of(h: PngHeader) -> nat {
    let bits = h.bit_depth as nat * channels(h.color_type);
    if bits < 8 { 1 } else { ((bits + 7) / 8) as nat }
}

/// Bytes in one unfiltered scanline: `ceil(bit_depth * channels * width / 8)`.
pub open spec fn row_len_of(h: PngHeader) -> nat {
    ((h.bit_depth as nat * channels(h.color_type) * h.width as nat + 7) / 8) as nat
}

/// Whether a (color type, bit depth) pair is legal.
pub fn valid_bit_depth(color_type: u8, value: u8) -> (r: bool)
    ensures
        r == legal_bit_depth(color_type, value),
{
    match color_type {
        0 => value == 1 || value == 2 || value == 4 || value == 8 || value == 16,
        2 => value == 8 || value == 16,
        3 => value == 1 || value == 2 || value == 4 || value == 8,
        4 => value == 8 || value == 16,
        6 => value == 8 || value == 16,
        _ => false,
    }
}

/// Parses and validates a header payload.
pub fn parse_ihdr_data(data: &[u8]) -> (r: Result<PngHeader, PNGError>)
    ensures
        r == parse_header(data@),
{
    if data.len() != SZ_IHDR {
        return Err(PNGError::MalformedHeader);
    }
    let wb: [u8; 4] = [data[0], data[1], data[2], data[3]];
    let hb: [u8; 4] = [data[4], data[5], data[6], data[7]];
    assert(wb@ =~= data@.subrange(0, 4));
    assert(hb@ =~= data@.subrange(4, 8));
    let width = be_bytes_to_u32(&wb);
    let height = be_bytes_to_u32(&hb);
    if !valid_bit_depth(data[9], data[8]) {
        return Err(PNGError::InvalidBitDepth);
    }
    if width == 0 || height == 0 {
        return Err(PNGError::MalformedHeader);
    }
    Ok(PngHeader {
        width,
        height,
        bit_depth: data[8],
        color_type: data[9],
        compression: data[10],
        filter: data[11],
        interlace: data[12],
    })
}

/// The payload of a header, read back, gives the header.
pub proof fn lemma_header_round_trip(h: PngHeader)
    ensures
        header_bytes(h).len() == 13,
        header_of(header_bytes(h)) == h,
{
    lemma_be_round_trip(h.width);
    lemma_be_round_trip(h.height);
    let d = header_bytes(h);
    assert(d.subrange(0, 4) =~= be_bytes(h.width));
    assert(d.subrange(4, 8) =~= be_bytes(h.height));
}

impl PngHeader {
    /// Bytes per pixel, rounded up, at least 1.
    pub fn bytes_per_pixel(&self) -> (r: usize)
        ensures
            r as nat == bpp_of(*self),
    {
        let ch: u32 = match self.color_type {
            2 => 3,
            4 => 2,
            6 => 4,
            _ => 1,
        };
        let bits: u32 = self.bit_depth as u32 * ch;
        if bits < 8 { 1 } else { ((bits + 7) / 8) as usize }
    }

    /// Bytes in one unfiltered scanline.
    pub fn row_length(&self) -> (r: u64)
        ensures
            r as nat == row_len_of(*self),
    {
        let ch: u64 = match self.color_type {
            2 => 3,
            4 => 2,
            6 => 4,
            _ => 1,
        };
        let per: u64 = self.bit_depth as u64 * ch;
        proof {
            assert(per * self.width as u64 <= 1020 * 0xffffffffu64) by (nonlinear_arith)
                requires per <= 1020, self.width <= 0xffffffffu32;
        }
        let bits: u64 = per * self.width as u64;
        (bits + 7) / 8
    }

    /// The header as a chunk, CRC included.
    pub fn to_chunk(&self) -> (c: Chunk)
        ensures
            c@.c_type == seq![73u8, 72u8, 68u8, 82u8],
            c@.data == header_bytes(*self),
            crc_ok(c@),
            chunk_view_wf(c@),
    {
        self.to_chunk_with(&CrcTable::new())
    }

    /// `to_chunk`, with a CRC table the caller already built.
    pub fn to_chunk_with(&self, table: &CrcTable) -> (c: Chunk)
        ensures
            c@.c_type == seq![73u8, 72u8, 68u8, 82u8],
            c@.data == header_bytes(*self),
            crc_ok(c@),
            chunk_view_wf(c@),
    {
        let mut data: Vec<u8> = Vec::new();
        let w = u32_to_be_bytes(self.width);
        let h = u32_to_be_bytes(self.height);
        data.push(w[0]);
        data.push(w[1]);
        data.push(w[2]);
        data.push(w[3]);
        data.push(h[0]);
        data.push(h[1]);
        data.push(h[2]);
        data.push(h[3]);
        data.push(self.bit_depth);
        data.push(self.color_type);
        data.push(self.compression);
        data.push(self.filter);
        data.push(self.interlace);
        assert(data@ =~= header_bytes(*self));
        let c_type: [u8; 4] = [73, 72, 68, 82];
        assert(c_type@ =~= seq![73u8, 72u8, 68u8, 82u8]);
        Chunk::new_with(c_type, data, table)
    }
}

/// The 256-entry palette that a PLTE payload describes; entries past the
/// declared ones are opaque black.
pub open spec fn palette_of(d: Seq<u8>) -> Seq<Color> {
    Seq::new(256, |i: int| if 3 * i + 3 <= d.len() { Color(d[3 * i], d[3 * i + 1], d[3 * i + 2], 255) } else { Color(0, 0, 0, 255) })
}

/// What building a palette from a PLTE payload gives.
pub open spec fn parse_palette(d: Seq<u8>) -> Result<Seq<Color>, PNGError> {
    if d.len() % 3 != 0 || d.len() > 768 { Err(PNGError::InvalidPalette) } else { Ok(palette_of(d)) }
}

/// The palette of an indexed image: 256 colors, index-addressed.
#[allow(non_camel_case_types)]
pub struct PLTE {
    colors: Vec<Color>,
}

impl View for PLTE {
    type V = Seq<Color>;

    closed spec fn view(&self) -> Seq<Color> {
        self.colors@
    }
}

impl PLTE {
    #[verifier::type_invariant]
    spec fn inv(&self) -> bool {
        self.colors@.len() == 256
    }

    /// The palette with no declared entries: 256 times opaque black.
    pub fn empty() -> (p: PLTE)
        ensures
            p@ == palette_of(seq![]),
    {
        let mut colors: Vec<Color> = Vec::new();
        let mut i: usize = 0;
        while i < 256
            invariant
                i <= 256,
                colors@ =~= palette_of(seq![]).subrange(0, i as int),
            decreases 256 - i,
        {
            colors.push(Color::black());
            i = i + 1;
        }
        PLTE { colors }
    }

    /// Builds the palette from a PLTE payload.
    pub fn from_data(d: &[u8]) -> (r: Result<PLTE, PNGError>)
        ensures
            match parse_palette(d@) {
                Ok(p) => r is Ok && r->Ok_0@ == p,
                Err(e) => r == Err::<PLTE, PNGError>(e),
            },
    {
        if d.len() % 3 != 0 || d.len() > 768 {
            return Err(PNGError::InvalidPalette);
        }
        let mut colors: Vec<Color> = Vec::new();
        let mut i: usize = 0;
        while i < 256
            invariant
                i <= 256,
                d@.len() <= 768,
                colors@ =~= palette_of(d@).subrange(0, i as int),
            decreases 256 - i,
        {
            if 3 * i + 3 <= d.len() {
                colors.push(Color::rgb(d[3 * i], d[3 * i + 1], d[3 * i + 2]));
            } else {
                colors.push(Color::black());
            }
            i = i + 1;
        }
        Ok(PLTE { colors })
    }

    /// Builds the palette from a PLTE chunk's payload.
    pub fn from_chunk(chunk: &Chunk) -> (r: Result<PLTE, PNGError>)
        ensures
            match parse_palette(chunk@.data) {
                Ok(p) => r is Ok && r->Ok_0@ == p,
                Err(e) => r == Err::<PLTE, PNGError>(e),
            },
    {
        PLTE::from_data(chunk.data())
    }

    /// Entry `index` of the palette.
    pub fn color(&self, index: u8) -> (c: Color)
        ensures
            self@.len() == 256,
            c == self@[index as int],
    {
        proof { use_type_invariant(self); }
        self.colors[index as usize]
    }

    pub fn len(&self) -> (n: usize)
        ensures
            n == 256,
            n == self@.len(),
    {
        proof { use_type_invariant(self); }
        self.colors.len()
    }
}

/// The 256 per-index alphas that a tRNS payload describes; unset ones are 255.
pub open spec fn alphas_of(d: Seq<u8>) -> Seq<u8> {
    Seq::new(256, |i: int| if i < d.len() { d[i] } else { 255u8 })
}

/// Per-index alpha overrides of an indexed image.
#[allow(non_camel_case_types)]
pub struct tRNS {
    transparency: Vec<u8>,
}

impl View for tRNS {
    type V = Seq<u8>;

    closed spec fn view(&self) -> Seq<u8> {
        self.transparency@
    }
}

impl tRNS {
    #[verifier::type_invariant]
    spec fn inv(&self) -> bool {
        self.transparency@.len() == 256
    }

    /// Builds the table from a tRNS payload, one alpha per byte, up to 256.
    pub fn from_data(d: &[u8]) -> (t: tRNS)
        ensures
            t@ == alphas_of(d@),
    {
        let mut alphas: Vec<u8> = Vec::new();
        let mut i: usize = 0;
        while i < 256
            invariant
                i <= 256,
                alphas@ =~= alphas_of(d@).subrange(0, i as int),
            decreases 256 - i,
        {
            if i < d.len() {
                alphas.push(d[i]);
            } else {
                alphas.push(255);
            }
            i = i + 1;
        }
        tRNS { transparency: alphas }
    }

    /// Alpha for palette entry `index`.
    pub fn alpha(&self, index: u8) -> (a: u8)
        ensures
            self@.len() == 256,
            a == self@[index as int],
    {
        proof { use_type_invariant(self); }
        self.transparency[index as usize]
    }
}

/// The gamma chunk: image gamma times 100000.
#[allow(non_camel_case_types)]
#[derive(Debug, Default, Clone, Copy, PartialEq, Eq, Structural)]
pub struct gAMA {
    pub gamma: u32,
}

impl gAMA {
    /// Reads the gamma value from a gAMA chunk: a 4-byte big-endian integer.
    pub fn from_chunk(chunk: &Chunk) -> (r: Result<gAMA, PNGError>)
        ensures
            chunk@.c_type == seq![103u8, 65u8, 77u8, 65u8] && chunk@.data.len() == 4
                ==> r == Ok::<gAMA, PNGError>(gAMA { gamma: be_u32(chunk@.data) as u32 }),
            !(chunk@.c_type == seq![103u8, 65u8, 77u8, 65u8] && chunk@.data.len() == 4)
                ==> r == Err::<gAMA, PNGError>(PNGError::MalformedChunk),
    {
        let t = chunk.c_type();
        let d = chunk.data();
        if t[0] == 103 && t[1] == 65 && t[2] == 77 && t[3] == 65 && d.len() == 4 {
            assert(t@ =~= seq![103u8, 65u8, 77u8, 65u8]);
            let b: [u8; 4] = [d[0], d[1], d[2], d[3]];
            assert(b@ =~= d@);
            Ok(gAMA { gamma: be_bytes_to_u32(&b) })
        } else {
            proof {
                if chunk@.c_type == seq![103u8, 65u8, 77u8, 65u8] {
                    assert(t@[0] == 103 && t@[1] == 65 && t@[2] == 77 && t@[3] == 65);
                }
            }
            Err(PNGError::MalformedChunk)
        }
    }
}

} // verus!
