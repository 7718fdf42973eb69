//! Expansion of unfiltered scanline bytes into RGBA pixels.
use vstd::prelude::*;
use crate::color::Color;
use crate::png::header::{PngHeader, PLTE, legal_bit_depth, row_len_of, channels};

verus! {

/// A 16-bit sample scaled to 8 bits: `round(sample * 255 / 65535)`.
pub open spec fn scale16(hi: u8, lo: u8) -> u8 {
    (((hi as int * 256 + lo as int) * 255 + 32767) / 65535) as u8
}

/// Sample `k` of a row of `bits`-bit samples (1, 2 or 4), most significant first.
pub open spec fn sub_sample(row: Seq<u8>, bits: u8, k: int) -> u8 {
    if bits == 1 {
        (row[k / 8] >> ((7 - k % 8) as u8)) & 1u8
    } else if bits == 2 {
        (row[k / 4] >> ((6 - 2 * (k % 4)) as u8)) & 3u8
    } else {
        (row[k / 2] >> ((4 - 4 * (k % 2)) as u8)) & 15u8
    }
}

/// A `bits`-bit gray level replicated to 8 bits.
pub open spec fn gray_level(row: Seq<u8>, bits: u8, k: int) -> u8 {
    if bits == 1 {
        (sub_sample(row, bits, k) * 255) as u8
    } else if bits == 2 {
        (sub_sample(row, bits, k) * 85) as u8
    } else {
        (sub_sample(row, bits, k) * 17) as u8
    }
}

pub open spec fn gray(v: u8) -> Color {
    Color(v, v, v, 255)
}

/// Pixel `k` of an unfiltered row of an image with header `h` and palette `pal`.
pub open spec fn pixel_at(h: PngHeader, pal: Seq<Color>, row: Seq<u8>, k: int) -> Color {
    let bd = h.bit_depth;
    if h.color_type == 0 {
        if bd == 8 {
            gray(row[k])
        } else if bd == 16 {
            gray(scale16(row[2 * k], row[2 * k + 1]))
        } else {
            gray(gray_level(row, bd, k))
        }
    } else if h.color_type == 2 {
        if bd == 8 {
            Color(row[3 * k], row[3 * k + 1], row[3 * k + 2], 255)
        } else {
            Color(scale16(row[6 * k], row[6 * k + 1]), scale16(row[6 * k + 2], row[6 * k + 3]), scale16(row[6 * k + 4], row[6 * k + 5]), 255)
        }
    } else if h.color_type == 3 {
        if bd == 8 { pal[row[k] as int] } else { pal[sub_sample(row, bd, k) as int] }
    } else if h.color_type == 4 {
        if bd == 8 {
            Color(row[2 * k], row[2 * k], row[2 * k], row[2 * k + 1])
        } else {
            let g = scale16(row[4 * k], row[4 * k + 1]);
            Color(g, g, g, scale16(row[4 * k + 2], row[4 * k + 3]))
        }
    } else {
        if bd == 8 {
            Color(row[4 * k], row[4 * k + 1], row[4 * k + 2], row[4 * k + 3])
        } else {
            Color(scale16(row[8 * k], row[8 * k + 1]), scale16(row[8 * k + 2], row[8 * k + 3]),
                scale16(row[8 * k + 4], row[8 * k + 5]), scale16(row[8 * k + 6], row[8 * k + 7]))
        }
    }
}

/// The pixels of one unfiltered row; none for an illegal sample format.
pub open spec fn unpack_row_spec(h: PngHeader, pal: Seq<Color>, row: Seq<u8>) -> Seq<Color> {
    if legal_bit_depth(h.color_type, h.bit_depth) {
        Seq::new(h.width as nat, |k: int| pixel_at(h, pal, row, k))
    } else {
        seq![]
    }
}

/// Bytes that `width` samples of `bits` bits take.
pub open spec fn packed_len(width: nat, bits: nat) -> nat {
    ((width * bits + 7) / 8) as nat
}

fn downscale(hi: u8, lo: u8) -> (r: u8)
    ensures
        r == scale16(hi, lo),
{
    let v: u32 = ((hi as u32) * 256 + lo as u32) * 255 + 32767;
    (v / 65535) as u8
}

fn sample(row: &[u8], bits: u8, k: usize) -> (r: u8)
    requires
        bits == 1 || bits == 2 || bits == 4,
        (k as int) < (row@.len() * 8) as int / (bits as int),
    ensures
        r == sub_sample(row@, bits, k as int),
        r < 16,
        bits == 1 ==> r <= 1,
        bits == 2 ==> r <= 3,
{
    if bits == 1 {
        let b = row[k / 8];
        let r = (b >> ((7 - k % 8) as u8)) & 1u8;
        assert(r <= 1) by (bit_vector) requires r == (b >> ((7 - k % 8) as u8)) & 1u8;
        r
    } else if bits == 2 {
        let b = row[k / 4];
        let r = (b >> ((6 - 2 * (k % 4)) as u8)) & 3u8;
        assert(r <= 3) by (bit_vector) requires r == (b >> ((6 - 2 * (k % 4)) as u8)) & 3u8;
        r
    } else {
        let b = row[k / 2];
        let r = (b >> ((4 - 4 * (k % 2)) as u8)) & 15u8;
        assert(r < 16) by (bit_vector) requires r == (b >> ((4 - 4 * (k % 2)) as u8)) & 15u8;
        r
    }
}

/// Gray, 1 bit per sample: levels 0 and 255.
pub fn gray_scale_one_bit(row: &[u8], width: usize) -> (r: Vec<Color>)
    requires
        width <= row@.len() * 8 / 1,
    ensures
        r@ == Seq::new(width as nat, |k: int| gray(gray_level(row@, 1, k))),
{
    let n = row.len();
    let mut out: Vec<Color> = Vec::with_capacity(width);
    let mut k: usize = 0;
    while k < width
        invariant
            k <= width,
            n == row@.len(),
            width <= row@.len() * 8 / 1,
            out@ =~= Seq::new(width as nat, |k: int| gray(gray_level(row@, 1, k))).subrange(0, k as int),
        decreases width - k,
    {
        let c = { let v = sample(row, 1, k) * 255; Color::rgb(v, v, v) };
        out.push(c);
        k = k + 1;
    }
    out
}

/// Gray, 2 bits per sample: levels in steps of 85.
pub fn gray_scale_two_bits(row: &[u8], width: usize) -> (r: Vec<Color>)
    requires
        width <= row@.len() * 8 / 2,
    ensures
        r@ == Seq::new(width as nat, |k: int| gray(gray_level(row@, 2, k))),
{
    let n = row.len();
    let mut out: Vec<Color> = Vec::with_capacity(width);
    let mut k: usize = 0;
    while k < width
        invariant
            k <= width,
            n == row@.len(),
            width <= row@.len() * 8 / 2,
            out@ =~= Seq::new(width as nat, |k: int| gray(gray_level(row@, 2, k))).subrange(0, k as int),
        decreases width - k,
    {
        let c = { let v = sample(row, 2, k) * 85; Color::rgb(v, v, v) };
        out.push(c);
        k = k + 1;
    }
    out
}

/// Gray, 4 bits per sample: levels in steps of 17.
pub fn gray_scale_four_bits(row: &[u8], width: usize) -> (r: Vec<Color>)
    requires
        width <= row@.len() * 8 / 4,
    ensures
        r@ == Seq::new(width as nat, |k: int| gray(gray_level(row@, 4, k))),
{
    let n = row.len();
    let mut out: Vec<Color> = Vec::with_capacity(width);
    let mut k: usize = 0;
    while k < width
        invariant
            k <= width,
            n == row@.len(),
            width <= row@.len() * 8 / 4,
            out@ =~= Seq::new(width as nat, |k: int| gray(gray_level(row@, 4, k))).subrange(0, k as int),
        decreases width - k,
    {
        let c = { let v = sample(row, 4, k) * 17; Color::rgb(v, v, v) };
        out.push(c);
        k = k + 1;
    }
    out
}

/// Gray, 8 bits per sample.
pub fn gray_scale_eight_bits(row: &[u8], width: usize) -> (r: Vec<Color>)
    requires
        width <= row@.len(),
    ensures
        r@ == Seq::new(width as nat, |k: int| gray(row@[k])),
{
    let n = row.len();
    let mut out: Vec<Color> = Vec::with_capacity(width);
    let mut k: usize = 0;
    while k < width
        invariant
            k <= width,
            n == row@.len(),
            width <= row@.len(),
            out@ =~= Seq::new(width as nat, |k: int| gray(row@[k])).subrange(0, k as int),
        decreases width - k,
    {
        let c = { Color::rgb(row[k], row[k], row[k]) };
        out.push(c);
        k = k + 1;
    }
    out
}

/// Gray, 16 bits per sample, scaled to 8.
pub fn gray_scale_sixteen_bits(row: &[u8], width: usize) -> (r: Vec<Color>)
    requires
        2 * width <= row@.len(),
    ensures
        r@ == Seq::new(width as nat, |k: int| gray(scale16(row@[2 * k], row@[2 * k + 1]))),
{
    let n = row.len();
    let mut out: Vec<Color> = Vec::with_capacity(width);
    let mut k: usize = 0;
    while k < width
        invariant
            k <= width,
            n == row@.len(),
            2 * width <= row@.len(),
            out@ =~= Seq::new(width as nat, |k: int| gray(scale16(row@[2 * k], row@[2 * k + 1]))).subrange(0, k as int),
        decreases width - k,
    {
        let c = { let v = downscale(row[2 * k], row[2 * k + 1]); Color::rgb(v, v, v) };
        out.push(c);
        k = k + 1;
    }
    out
}

/// Truecolor, 8 bits per channel.
pub fn rgb_eight_bits(row: &[u8], width: usize) -> (r: Vec<Color>)
    requires
        3 * width <= row@.len(),
    ensures
        r@ == Seq::new(width as nat, |k: int| Color(row@[3 * k], row@[3 * k + 1], row@[3 * k + 2], 255)),
{
    let n = row.len();
    let mut out: Vec<Color> = Vec::with_capacity(width);
    let mut k: usize = 0;
    while k < width
        invariant
            k <= width,
            n == row@.len(),
            3 * width <= row@.len(),
            out@ =~= Seq::new(width as nat, |k: int| Color(row@[3 * k], row@[3 * k + 1], row@[3 * k + 2], 255)).subrange(0, k as int),
        decreases width - k,
    {
        let c = { Color::rgb(row[3 * k], row[3 * k + 1], row[3 * k + 2]) };
        out.push(c);
        k = k + 1;
    }
    out
}

/// Truecolor, 16 bits per channel, scaled to 8.
pub fn rgb_sixteen_bits(row: &[u8], width: usize) -> (r: Vec<Color>)
    requires
        6 * width <= row@.len(),
    ensures
        r@ == Seq::new(width as nat, |k: int| Color(scale16(row@[6 * k], row@[6 * k + 1]), scale16(row@[6 * k + 2], row@[6 * k + 3]), scale16(row@[6 * k + 4], row@[6 * k + 5]), 255)),
{
    let n = row.len();
    let mut out: Vec<Color> = Vec::with_capacity(width);
    let mut k: usize = 0;
    while k < width
        invariant
            k <= width,
            n == row@.len(),
            6 * width <= row@.len(),
            out@ =~= Seq::new(width as nat, |k: int| Color(scale16(row@[6 * k], row@[6 * k + 1]), scale16(row@[6 * k + 2], row@[6 * k + 3]), scale16(row@[6 * k + 4], row@[6 * k + 5]), 255)).subrange(0, k as int),
        decreases width - k,
    {
        let c = { Color::rgb(downscale(row[6 * k], row[6 * k + 1]), downscale(row[6 * k + 2], row[6 * k + 3]), downscale(row[6 * k + 4], row[6 * k + 5])) };
        out.push(c);
        k = k + 1;
    }
    out
}

/// Gray with alpha, 8 bits per channel.
pub fn gray_scale_with_alpha_eight_bits(row: &[u8], width: usize) -> (r: Vec<Color>)
    requires
        2 * width <= row@.len(),
    ensures
        r@ == Seq::new(width as nat, |k: int| Color(row@[2 * k], row@[2 * k], row@[2 * k], row@[2 * k + 1])),
{
    let n = row.len();
    let mut out: Vec<Color> = Vec::with_capacity(width);
    let mut k: usize = 0;
    while k < width
        invariant
            k <= width,
            n == row@.len(),
            2 * width <= row@.len(),
            out@ =~= Seq::new(width as nat, |k: int| Color(row@[2 * k], row@[2 * k], row@[2 * k], row@[2 * k + 1])).subrange(0, k as int),
        decreases width - k,
    {
        let c = { Color::rgba(row[2 * k], row[2 * k], row[2 * k], row[2 * k + 1]) };
        out.push(c);
        k = k + 1;
    }
    out
}

/// Gray with alpha, 16 bits per channel, scaled to 8.
pub fn gray_scale_with_alpha_sixteen_bits(row: &[u8], width: usize) -> (r: Vec<Color>)
    requires
        4 * width <= row@.len(),
    ensures
        r@ == Seq::new(width as nat, |k: int| Color(scale16(row@[4 * k], row@[4 * k + 1]), scale16(row@[4 * k], row@[4 * k + 1]), scale16(row@[4 * k], row@[4 * k + 1]), scale16(row@[4 * k + 2], row@[4 * k + 3]))),
{
    let n = row.len();
    let mut out: Vec<Color> = Vec::with_capacity(width);
    let mut k: usize = 0;
    while k < width
        invariant
            k <= width,
            n == row@.len(),
            4 * width <= row@.len(),
            out@ =~= Seq::new(width as nat, |k: int| Color(scale16(row@[4 * k], row@[4 * k + 1]), scale16(row@[4 * k], row@[4 * k + 1]), scale16(row@[4 * k], row@[4 * k + 1]), scale16(row@[4 * k + 2], row@[4 * k + 3]))).subrange(0, k as int),
        decreases width - k,
    {
        let c = { let v = downscale(row[4 * k], row[4 * k + 1]); Color::rgba(v, v, v, downscale(row[4 * k + 2], row[4 * k + 3])) };
        out.push(c);
        k = k + 1;
    }
    out
}

/// Truecolor with alpha, 8 bits per channel.
pub fn rgba_eight_bits(row: &[u8], width: usize) -> (r: Vec<Color>)
    requires
        4 * width <= row@.len(),
    ensures
        r@ == Seq::new(width as nat, |k: int| Color(row@[4 * k], row@[4 * k + 1], row@[4 * k + 2], row@[4 * k + 3])),
{
    let n = row.len();
    let mut out: Vec<Color> = Vec::with_capacity(width);
    let mut k: usize = 0;
    while k < width
        invariant
            k <= width,
            n == row@.len(),
            4 * width <= row@.len(),
            out@ =~= Seq::new(width as nat, |k: int| Color(row@[4 * k], row@[4 * k + 1], row@[4 * k + 2], row@[4 * k + 3])).subrange(0, k as int),
        decreases width - k,
    {
        let c = { Color::rgba(row[4 * k], row[4 * k + 1], row[4 * k + 2], row[4 * k + 3]) };
        out.push(c);
        k = k + 1;
    }
    out
}

/// Truecolor with alpha, 16 bits per channel, scaled to 8.
pub fn rgba_sixteen_bits(row: &[u8], width: usize) -> (r: Vec<Color>)
    requires
        8 * width <= row@.len(),
    ensures
        r@ == Seq::new(width as nat, |k: int| Color(scale16(row@[8 * k], row@[8 * k + 1]), scale16(row@[8 * k + 2], row@[8 * k + 3]), scale16(row@[8 * k + 4], row@[8 * k + 5]), scale16(row@[8 * k + 6], row@[8 * k + 7]))),
{
    let n = row.len();
    let mut out: Vec<Color> = Vec::with_capacity(width);
    let mut k: usize = 0;
    while k < width
        invariant
            k <= width,
            n == row@.len(),
            8 * width <= row@.len(),
            out@ =~= Seq::new(width as nat, |k: int| Color(scale16(row@[8 * k], row@[8 * k + 1]), scale16(row@[8 * k + 2], row@[8 * k + 3]), scale16(row@[8 * k + 4], row@[8 * k + 5]), scale16(row@[8 * k + 6], row@[8 * k + 7]))).subrange(0, k as int),
        decreases width - k,
    {
        let c = { Color::rgba(downscale(row[8 * k], row[8 * k + 1]), downscale(row[8 * k + 2], row[8 * k + 3]), downscale(row[8 * k + 4], row[8 * k + 5]), downscale(row[8 * k + 6], row[8 * k + 7])) };
        out.push(c);
        k = k + 1;
    }
    out
}

/// Palette indices, 1 bit each.
pub fn palette_index_one_bit(row: &[u8], width: usize, plte: &PLTE) -> (r: Vec<Color>)
    requires
        width <= row@.len() * 8 / 1,
    ensures
        r@ == Seq::new(width as nat, |k: int| plte@[sub_sample(row@, 1, k) as int]),
{
    let n = row.len();
    let mut out: Vec<Color> = Vec::with_capacity(width);
    let mut k: usize = 0;
    while k < width
        invariant
            k <= width,
            n == row@.len(),
            width <= row@.len() * 8 / 1,
            out@ =~= Seq::new(width as nat, |k: int| plte@[sub_sample(row@, 1, k) as int]).subrange(0, k as int),
        decreases width - k,
    {
        let c = { plte.color(sample(row, 1, k)) };
        out.push(c);
        k = k + 1;
    }
    out
}

/// Palette indices, 2 bits each.
pub fn palette_index_two_bits(row: &[u8], width: usize, plte: &PLTE) -> (r: Vec<Color>)
    requires
        width <= row@.len() * 8 / 2,
    ensures
        r@ == Seq::new(width as nat, |k: int| plte@[sub_sample(row@, 2, k) as int]),
{
    let n = row.len();
    let mut out: Vec<Color> = Vec::with_capacity(width);
    let mut k: usize = 0;
    while k < width
        invariant
            k <= width,
            n == row@.len(),
            width <= row@.len() * 8 / 2,
            out@ =~= Seq::new(width as nat, |k: int| plte@[sub_sample(row@, 2, k) as int]).subrange(0, k as int),
        decreases width - k,
    {
        let c = { plte.color(sample(row, 2, k)) };
        out.push(c);
        k = k + 1;
    }
    out
}

/// Palette indices, 4 bits each.
pub fn palette_index_four_bits(row: &[u8], width: usize, plte: &PLTE) -> (r: Vec<Color>)
    requires
        width <= row@.len() * 8 / 4,
    ensures
        r@ == Seq::new(width as nat, |k: int| plte@[sub_sample(row@, 4, k) as int]),
{
    let n = row.len();
    let mut out: Vec<Color> = Vec::with_capacity(width);
    let mut k: usize = 0;
    while k < width
        invariant
            k <= width,
            n == row@.len(),
            width <= row@.len() * 8 / 4,
            out@ =~= Seq::new(width as nat, |k: int| plte@[sub_sample(row@, 4, k) as int]).subrange(0, k as int),
        decreases width - k,
    {
        let c = { plte.color(sample(row, 4, k)) };
        out.push(c);
        k = k + 1;
    }
    out
}

/// Palette indices, 8 bits each.
pub fn palette_index_eight_bits(row: &[u8], width: usize, plte: &PLTE) -> (r: Vec<Color>)
    requires
        width <= row@.len(),
    ensures
        r@ == Seq::new(width as nat, |k: int| plte@[row@[k] as int]),
{
    let n = row.len();
    let mut out: Vec<Color> = Vec::with_capacity(width);
    let mut k: usize = 0;
    while k < width
        invariant
            k <= width,
            n == row@.len(),
            width <= row@.len(),
            out@ =~= Seq::new(width as nat, |k: int| plte@[row@[k] as int]).subrange(0, k as int),
        decreases width - k,
    {
        let c = { plte.color(row[k]) };
        out.push(c);
        k = k + 1;
    }
    out
}


/// Expands one unfiltered row into pixels, by color type and bit depth;
/// an illegal pair gives no pixels.
pub fn unpack_row(row: &[u8], header: &PngHeader, plte: &PLTE) -> (r: Vec<Color>)
    requires
        row@.len() >= row_len_of(*header),
    ensures
        r@ == unpack_row_spec(*header, plte@, row@),
{
    let w = header.width as usize;
    let bd = header.bit_depth;
    if !crate::png::header::valid_bit_depth(header.color_type, bd) {
        return Vec::new();
    }
    proof {
        let n = row@.len() as int;
        let x = bd as int * channels(header.color_type) as int * w as int;
        assert(x <= n * 8) by (nonlinear_arith)
            requires n >= (x + 7) / 8;
        let wi = w as int;
        if header.color_type == 0 || header.color_type == 3 {
            assert(x == bd as int * wi);
            if bd == 1 { assert(x == wi); }
            if bd == 2 { assert(x == 2 * wi); }
            if bd == 4 { assert(x == 4 * wi); }
            if bd == 8 { assert(x == 8 * wi); }
            if bd == 16 { assert(x == 16 * wi); }
        } else if header.color_type == 2 {
            if bd == 8 { assert(x == 24 * wi); } else { assert(x == 48 * wi); }
        } else if header.color_type == 4 {
            if bd == 8 { assert(x == 16 * wi); } else { assert(x == 32 * wi); }
        } else {
            if bd == 8 { assert(x == 32 * wi); } else { assert(x == 64 * wi); }
        }
    }
    let ghost spec_row = Seq::new(w as nat, |k: int| pixel_at(*header, plte@, row@, k));
    let r = match header.color_type {
        0 => match bd {
            1 => gray_scale_one_bit(row, w),
            2 => gray_scale_two_bits(row, w),
            4 => gray_scale_four_bits(row, w),
            8 => gray_scale_eight_bits(row, w),
            _ => gray_scale_sixteen_bits(row, w),
        },
        2 => match bd {
            8 => rgb_eight_bits(row, w),
            _ => rgb_sixteen_bits(row, w),
        },
        3 => match bd {
            1 => palette_index_one_bit(row, w, plte),
            2 => palette_index_two_bits(row, w, plte),
            4 => palette_index_four_bits(row, w, plte),
            _ => palette_index_eight_bits(row, w, plte),
        },
        4 => match bd {
            8 => gray_scale_with_alpha_eight_bits(row, w),
            _ => gray_scale_with_alpha_sixteen_bits(row, w),
        },
        _ => match bd {
            8 => rgba_eight_bits(row, w),
            _ => rgba_sixteen_bits(row, w),
        },
    };
    assert(r@ =~= spec_row);
    r
}

} // verus!
