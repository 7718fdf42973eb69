//! RGBA colors.
use vstd::prelude::*;

verus! {

/// An RGBA color, one byte per channel: red, green, blue, alpha.
#[derive(Debug, Default, Clone, Copy, PartialEq, Eq, Structural)]
pub struct Color(pub u8, pub u8, pub u8, pub u8);

/// The four bytes of a color, in channel order.
pub open spec fn color_bytes(c: Color) -> Seq<u8> {
    seq![c.0, c.1, c.2, c.3]
}

/// The color that three or four bytes describe; a missing alpha is opaque.
pub open spec fn color_of_slice(s: Seq<u8>) -> Color {
    Color(
        if s.len() > 0 { s[0] } else { 0 },
        if s.len() > 1 { s[1] } else { 0 },
        if s.len() > 2 { s[2] } else { 0 },
        if s.len() > 3 { s[3] } else { 255 },
    )
}

/// `floor(a * b / 255)`.
fn modulate(a: u8, b: u8) -> (r: u8)
    ensures
        r as int == a as int * b as int / 255,
{
    proof {
        assert(0 <= a as int * b as int <= 255 * 255) by (nonlinear_arith)
            requires a <= 255, b <= 255;
    }
    let p: u32 = a as u32 * b as u32;
    (p / 255) as u8
}

impl Color {
    /// Opaque black.
    pub fn black() -> (c: Self)
        ensures
            c == Color(0, 0, 0, 255),
    {
        Color(0, 0, 0, 255)
    }

    /// Opaque white.
    pub fn white() -> (c: Self)
        ensures
            c == Color(255, 255, 255, 255),
    {
        Color(255, 255, 255, 255)
    }

    /// Opaque red.
    pub fn red() -> (c: Self)
        ensures
            c == Color(255, 0, 0, 255),
    {
        Color(255, 0, 0, 255)
    }

    /// Opaque green.
    pub fn green() -> (c: Self)
        ensures
            c == Color(0, 255, 0, 255),
    {
        Color(0, 255, 0, 255)
    }

    /// Opaque blue.
    pub fn blue() -> (c: Self)
        ensures
            c == Color(0, 0, 255, 255),
    {
        Color(0, 0, 255, 255)
    }

    /// Fully transparent white.
    pub fn transparent() -> (c: Self)
        ensures
            c == Color(255, 255, 255, 0),
    {
        Color(255, 255, 255, 0)
    }

    /// An opaque color from red, green and blue.
    pub fn rgb(r: u8, g: u8, b: u8) -> (c: Self)
        ensures
            c == Color(r, g, b, 255),
    {
        Color(r, g, b, 255)
    }

    /// A color from red, green, blue and alpha.
    pub fn rgba(r: u8, g: u8, b: u8, a: u8) -> (c: Self)
        ensures
            c == Color(r, g, b, a),
    {
        Color(r, g, b, a)
    }

    /// A color from four bytes in channel order.
    pub fn from_bytes(bytes: &[u8; 4]) -> (c: Self)
        ensures
            color_bytes(c) == bytes@,
    {
        let c = Color(bytes[0], bytes[1], bytes[2], bytes[3]);
        assert(color_bytes(c) =~= bytes@);
        c
    }

    /// A color from the first (up to) four bytes of a slice; channels that
    /// the slice does not reach are 0, and alpha is then 255.
    pub fn from_slice(bytes: &[u8]) -> (c: Self)
        ensures
            c == color_of_slice(bytes@),
    {
        let n = bytes.len();
        Color(
            if n > 0 { bytes[0] } else { 0 },
            if n > 1 { bytes[1] } else { 0 },
            if n > 2 { bytes[2] } else { 0 },
            if n > 3 { bytes[3] } else { 255 },
        )
    }

    /// Red channel.
    pub fn r(&self) -> (v: u8)
        ensures
            v == self.0,
    {
        self.0
    }

    /// Green channel.
    pub fn g(&self) -> (v: u8)
        ensures
            v == self.1,
    {
        self.1
    }

    /// Blue channel.
    pub fn b(&self) -> (v: u8)
        ensures
            v == self.2,
    {
        self.2
    }

    /// Alpha channel.
    pub fn alpha(&self) -> (v: u8)
        ensures
            v == self.3,
    {
        self.3
    }

    /// Modulates this color by `col`: each channel becomes
    /// `floor(self * col / 255)`; the result is opaque.
    pub fn difuse(&self, col: &Color) -> (c: Self)
        ensures
            c.0 as int == self.0 as int * col.0 as int / 255,
            c.1 as int == self.1 as int * col.1 as int / 255,
            c.2 as int == self.2 as int * col.2 as int / 255,
            c.3 == 255,
    {
        Color(modulate(self.0, col.0), modulate(self.1, col.1), modulate(self.2, col.2), 255)
    }

    /// Replaces the alpha channel.
    pub fn set_alpha(&mut self, alpha: u8)
        ensures
            *final(self) == Color(old(self).0, old(self).1, old(self).2, alpha),
    {
        self.3 = alpha;
    }

    /// The four channel bytes.
    pub fn as_bytes(&self) -> (r: [u8; 4])
        ensures
            r@ == color_bytes(*self),
    {
        let r = [self.0, self.1, self.2, self.3];
        assert(r@ =~= color_bytes(*self));
        r
    }
}

/// Channel-wise sum of red, green and blue; the result is opaque.
impl std::ops::Add for Color {
    type Output = Color;

    fn add(self, other: Color) -> Color {
        Color(self.0 + other.0, self.1 + other.1, self.2 + other.2, 255)
    }
}

impl vstd::std_specs::ops::AddSpecImpl for Color {
    open spec fn obeys_add_spec() -> bool {
        true
    }

    open spec fn add_req(self, other: Color) -> bool {
        self.0 + other.0 <= 255 && self.1 + other.1 <= 255 && self.2 + other.2 <= 255
    }

    open spec fn add_spec(self, other: Color) -> Color {
        Color((self.0 + other.0) as u8, (self.1 + other.1) as u8, (self.2 + other.2) as u8, 255)
    }
}

/// Channel-wise difference of red, green and blue; the result is opaque.
impl std::ops::Sub for Color {
    type Output = Color;

    fn sub(self, other: Color) -> Color {
        Color(self.0 - other.0, self.1 - other.1, self.2 - other.2, 255)
    }
}

impl vstd::std_specs::ops::SubSpecImpl for Color {
    open spec fn obeys_sub_spec() -> bool {
        true
    }

    open spec fn sub_req(self, other: Color) -> bool {
        self.0 >= other.0 && self.1 >= other.1 && self.2 >= other.2
    }

    open spec fn sub_spec(self, other: Color) -> Color {
        Color((self.0 - other.0) as u8, (self.1 - other.1) as u8, (self.2 - other.2) as u8, 255)
    }
}

} // verus!
