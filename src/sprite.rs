//! Sprites: rectangular blocks of pixels cut out of a larger image.
use vstd::prelude::*;
use crate::color::Color;
use crate::math::vector::Vector2D;
use crate::png::decode::{PngImage, image_pixels};
use crate::png::PNGError;

verus! {

/// A `width` by `height` block of pixels, row-major.
#[derive(Debug, Default, Clone)]
pub struct Sprite {
    pub width: usize,
    pub height: usize,
    pub pixels: Vec<Color>,
}

impl Sprite {
    /// The pixel at column `x`, row `y`, if it lies within the sprite and
    /// the pixel buffer.
    pub fn get_pixel(&self, x: usize, y: usize) -> (r: Option<Color>)
        ensures
            x >= self.width || y >= self.height ==> r is None,
            x < self.width && y < self.height && y * self.width + x < self.pixels@.len()
                ==> r == Some(self.pixels@[y * self.width + x]),
            x < self.width && y < self.height && y * self.width + x >= self.pixels@.len() ==> r is None,
    {
        let n = self.pixels.len();
        if x >= self.width || y >= self.height {
            None
        } else {
            proof {
                assert(y * self.width + x < self.height * self.width) by (nonlinear_arith)
                    requires y < self.height, x < self.width;
            }
            match y.checked_mul(self.width) {
                Some(row) => match row.checked_add(x) {
                    Some(pos) => if pos < self.pixels.len() { Some(self.pixels[pos]) } else { None },
                    None => None,
                },
                None => None,
            }
        }
    }
}

/// Rows `0..n` of the `w`-pixel-wide block at column `x`, row `y` of an
/// image `iw` pixels wide, concatenated; a row that runs past the end of
/// the pixel buffer is left out.
pub open spec fn block_rows(p: Seq<Color>, iw: nat, x: nat, y: nat, w: nat, n: nat) -> Seq<Color>
    decreases n,
{
    if n == 0 {
        seq![]
    } else {
        let start = (y + n - 1) * iw + x;
        if start + w <= p.len() {
            block_rows(p, iw, x, y, w, (n - 1) as nat) + p.subrange(start as int, start + w)
        } else {
            block_rows(p, iw, x, y, w, (n - 1) as nat)
        }
    }
}

/// The size of one tile.
#[derive(Debug, Default, Clone, Copy, PartialEq, Eq, Structural)]
pub struct SpriteSize {
    pub width: usize,
    pub height: usize,
}

impl SpriteSize {
    pub fn new(width: usize, height: usize) -> (s: Self)
        ensures
            s == (SpriteSize { width, height }),
    {
        SpriteSize { width, height }
    }
}

/// Cuts tiles out of an image, left to right, then top to bottom.
#[derive(Debug, Default, Clone)]
pub struct SpriteExtractor {
    image_width: usize,
    image_height: usize,
    tile_size: SpriteSize,
    separation_x: usize,
    separation_y: usize,
    pixels: Vec<Color>,
    start: Vector2D<i32>,
}

impl SpriteExtractor {
    pub closed spec fn image_width_spec(&self) -> usize { self.image_width }

    pub closed spec fn image_height_spec(&self) -> usize { self.image_height }

    pub closed spec fn pixels_spec(&self) -> Seq<Color> { self.pixels@ }

    pub closed spec fn tile_size_spec(&self) -> SpriteSize { self.tile_size }

    pub closed spec fn start_spec(&self) -> Vector2D<i32> { self.start }

    pub closed spec fn separation_x_spec(&self) -> usize { self.separation_x }

    pub closed spec fn separation_y_spec(&self) -> usize { self.separation_y }

    /// An extractor over the given image pixels, starting at the top left tile.
    pub fn new(
        image_width: usize,
        image_height: usize,
        tile_size: SpriteSize,
        separation_x: usize,
        separation_y: usize,
        pixels: Vec<Color>,
    ) -> (r: Self)
        ensures
            r.image_width_spec() == image_width,
            r.image_height_spec() == image_height,
            r.pixels_spec() == pixels@,
            r.tile_size_spec() == tile_size,
            r.separation_x_spec() == separation_x,
            r.separation_y_spec() == separation_y,
            r.start_spec() == (Vector2D { x: 0i32, y: 0i32 }),
    {
        SpriteExtractor {
            image_width,
            image_height,
            tile_size,
            separation_x,
            separation_y,
            pixels,
            start: Vector2D { x: 0, y: 0 },
        }
    }

    /// An extractor over the pixels of a decoded image.
    pub fn from_png(image: &PngImage, tile_size: SpriteSize, separation_x: usize, separation_y: usize) -> (r: Result<
        Self,
        PNGError,
    >)
        ensures
            match image_pixels(image@) {
                Ok(p) => r is Ok && r->Ok_0.pixels_spec() == p && r->Ok_0.image_width_spec() == image@.header.width
                    && r->Ok_0.image_height_spec() == image@.header.height && r->Ok_0.tile_size_spec() == tile_size
                    && r->Ok_0.separation_x_spec() == separation_x && r->Ok_0.separation_y_spec() == separation_y
                    && r->Ok_0.start_spec() == (Vector2D { x: 0i32, y: 0i32 }),
                Err(e) => r == Err::<Self, PNGError>(e),
            },
    {
        let pixels = match image.pixels() {
            Ok(p) => p,
            Err(e) => {
                return Err(e);
            },
        };
        Ok(SpriteExtractor {
            image_width: image.width() as usize,
            image_height: image.height() as usize,
            pixels,
            tile_size,
            separation_x,
            separation_y,
            start: Vector2D { x: 0, y: 0 },
        })
    }

    /// The `length` pixels of row `y` from column `x`, if they end before
    /// the last pixel of the image.
    fn extract_pixels(&self, x: usize, y: usize, length: usize) -> (r: Option<Vec<Color>>)
        ensures
            y * self.image_width_spec() + x + length <= self.pixels_spec().len() ==> y * self.image_width_spec() + x + length <= usize::MAX,
            r is Some <==> (y * self.image_width_spec() + x + length < self.image_width_spec() * self.image_height_spec()
                && y * self.image_width_spec() + x + length <= self.pixels_spec().len()),
            r is Some ==> r->Some_0@ == self.pixels_spec().subrange(y * self.image_width_spec() + x,
                y * self.image_width_spec() + x + length),
    {
        let n = self.pixels.len();
        let start = match y.checked_mul(self.image_width) {
            Some(row) => match row.checked_add(x) {
                Some(v) => v,
                None => {
                    return None;
                },
            },
            None => {
                return None;
            },
        };
        let end = match start.checked_add(length) {
            Some(v) => v,
            None => {
                return None;
            },
        };
        let inside = match self.image_width.checked_mul(self.image_height) {
            Some(size) => end < size,
            None => true,
        };
        if inside && end <= self.pixels.len() {
            let s = start;
            let mut out: Vec<Color> = Vec::with_capacity(length);
            let mut i: usize = 0;
            while i < length
                invariant
                    i <= length,
                    s + length <= self.pixels@.len(),
                    end == s + length,
                    end <= self.pixels.len(),
                    s == y * self.image_width + x,
                    out@ =~= self.pixels@.subrange(s as int, s + i),
                decreases length - i,
            {
                out.push(self.pixels[s + i]);
                i = i + 1;
            }
            Some(out)
        } else {
            None
        }
    }

    /// The `size` block whose top left corner is `start`, if it lies
    /// strictly inside the image (its right and bottom edges included).
    pub fn extract_sprite(&mut self, start: Vector2D<i32>, size: SpriteSize) -> (r: Option<Sprite>)
        ensures
            *final(self) == *old(self),
            r is Some <==> (start.x >= 0 && start.y >= 0 && start.x + size.width < old(self).image_width_spec()
                && start.y + size.height < old(self).image_height_spec()),
            r is Some ==> r->Some_0.width == size.width && r->Some_0.height == size.height,
            r is Some ==> r->Some_0.pixels@ == block_rows(old(self).pixels_spec(), old(self).image_width_spec() as nat,
                start.x as nat, start.y as nat, size.width as nat, size.height as nat),
    {
        if start.x < 0 || start.y < 0 {
            return None;
        }
        let sx = start.x as usize;
        let sy = start.y as usize;
        if !(size.width < self.image_width && sx < self.image_width - size.width && size.height < self.image_height
            && sy < self.image_height - size.height) {
            return None;
        }
        let mut pixels: Vec<Color> = Vec::new();
        let mut i: usize = 0;
        while i < size.height
            invariant
                i <= size.height,
                sx + size.width < self.image_width,
                sy + size.height < self.image_height,
                pixels@ == block_rows(self.pixels@, self.image_width as nat, sx as nat, sy as nat,
                    size.width as nat, i as nat),
            decreases size.height - i,
        {
            proof {
                let row = sy + i;
                assert(row * self.image_width + sx + size.width < self.image_width * self.image_height) by (nonlinear_arith)
                    requires row < self.image_height - 1, sx + size.width < self.image_width;
            }
            match self.extract_pixels(sx, sy + i, size.width) {
                Some(colors) => {
                    let mut k: usize = 0;
                    let ghost before = pixels@;
                    while k < colors.len()
                        invariant
                            k <= colors@.len(),
                            pixels@ == before + colors@.subrange(0, k as int),
                        decreases colors.len() - k,
                    {
                        pixels.push(colors[k]);
                        k = k + 1;
                        assert(pixels@ =~= before + colors@.subrange(0, k as int));
                    }
                    assert(colors@.subrange(0, colors@.len() as int) =~= colors@);
                },
                None => {},
            }
            i = i + 1;
        }
        Some(Sprite { width: size.width, height: size.height, pixels })
    }

    /// The whole image as one sprite.
    pub fn extract_whole(&self) -> (r: Sprite)
        ensures
            r.width == self.image_width_spec(),
            r.height == self.image_height_spec(),
            r.pixels@ == self.pixels_spec(),
    {
        let mut pixels: Vec<Color> = Vec::with_capacity(self.pixels.len());
        let mut i: usize = 0;
        while i < self.pixels.len()
            invariant
                i <= self.pixels@.len(),
                pixels@ =~= self.pixels@.subrange(0, i as int),
            decreases self.pixels.len() - i,
        {
            pixels.push(self.pixels[i]);
            i = i + 1;
        }
        Sprite { width: self.image_width, height: self.image_height, pixels }
    }

    /// The tile at the current position; the position then moves one tile
    /// (plus separation) right, or to the start of the next row of tiles
    /// when the next tile would not fit. A position past `i32::MAX` stays
    /// at `i32::MAX`, where no tile fits.
    pub fn next_sprite(&mut self) -> (r: Option<Sprite>)
        ensures
            final(self).image_width_spec() == old(self).image_width_spec(),
            final(self).image_height_spec() == old(self).image_height_spec(),
            final(self).pixels_spec() == old(self).pixels_spec(),
            final(self).tile_size_spec() == old(self).tile_size_spec(),
            final(self).separation_x_spec() == old(self).separation_x_spec(),
            final(self).separation_y_spec() == old(self).separation_y_spec(),
            r is Some <==> (old(self).start_spec().x >= 0 && old(self).start_spec().y >= 0
                && old(self).start_spec().x + old(self).tile_size_spec().width < old(self).image_width_spec()
                && old(self).start_spec().y + old(self).tile_size_spec().height < old(self).image_height_spec()),
    {
        let start = self.start;
        let tile = self.tile_size;
        let sprite = self.extract_sprite(start, tile);
        let x = start.x as i128;
        let y = start.y as i128;
        if x >= 0 && x + (self.separation_x as i128) + 2 * (tile.width as i128) < self.image_width as i128 {
            let nx = x + (self.separation_x as i128) + (tile.width as i128);
            self.start = Vector2D { x: if nx > i32::MAX as i128 { i32::MAX } else { nx as i32 }, y: start.y };
        } else {
            let ny = y + (tile.height as i128) + (self.separation_y as i128);
            self.start = Vector2D { x: 0, y: if ny > i32::MAX as i128 { i32::MAX } else { ny as i32 } };
        }
        sprite
    }
}

} // verus!
