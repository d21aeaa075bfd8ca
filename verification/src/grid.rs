//! An RGBA image held as plain values: its dimensions and its pixels in
//! raster order.

use vstd::prelude::*;
use crate::color::Rgba8;
use crate::raster::{raster_index, lemma_index_in_bounds};

verus! {

/// What a pixel grid is, mathematically: its dimensions and its pixels in
/// raster order (row by row, each row left to right).
pub struct GridModel {
    pub width: nat,
    pub height: nat,
    pub pixels: Seq<Rgba8>,
}

impl GridModel {
    /// Both dimensions fit in 32 bits and there is exactly one pixel for
    /// each position of the grid.
    pub open spec fn wf(self) -> bool {
        &&& self.width <= u32::MAX
        &&& self.height <= u32::MAX
        &&& self.pixels.len() == self.width * self.height
    }

    /// The pixel at column `x`, row `y`.
    pub open spec fn pixel_at(self, x: int, y: int) -> Rgba8 {
        self.pixels[raster_index(x, y, self.width as int)]
    }
}

/// The pixel stored in the four bytes that start at `4 * i`.
pub open spec fn pixel_of_bytes(bytes: Seq<u8>, i: int) -> Rgba8 {
    Rgba8 { r: bytes[4 * i], g: bytes[4 * i + 1], b: bytes[4 * i + 2], a: bytes[4 * i + 3] }
}

/// The pixels stored in a byte buffer, four bytes (R, G, B, A) per pixel.
pub open spec fn pixels_of_bytes(bytes: Seq<u8>) -> Seq<Rgba8> {
    Seq::new((bytes.len() / 4) as nat, |i: int| pixel_of_bytes(bytes, i))
}

/// Channel `k` of a colour, counting R, G, B, A from zero.
pub open spec fn channel(color: Rgba8, k: int) -> u8 {
    if k == 0 {
        color.r
    } else if k == 1 {
        color.g
    } else if k == 2 {
        color.b
    } else {
        color.a
    }
}

/// The byte buffer that stores the given pixels, four bytes per pixel.
pub open spec fn bytes_of_pixels(pixels: Seq<Rgba8>) -> Seq<u8> {
    Seq::new(4 * pixels.len(), |k: int| channel(pixels[k / 4], k % 4))
}

/// Reading the pixels of a buffer and storing them again gives the buffer
/// back, provided the buffer holds whole pixels.
pub proof fn lemma_bytes_round_trip(bytes: Seq<u8>)
    requires
        bytes.len() % 4 == 0,
    ensures
        bytes_of_pixels(pixels_of_bytes(bytes)) == bytes,
{
    assert(bytes_of_pixels(pixels_of_bytes(bytes)) =~= bytes);
}

/// Storing pixels and reading them again gives the pixels back.
pub proof fn lemma_pixels_round_trip(pixels: Seq<Rgba8>)
    ensures
        pixels_of_bytes(bytes_of_pixels(pixels)) == pixels,
{
    assert(pixels_of_bytes(bytes_of_pixels(pixels)) =~= pixels);
}

/// An RGBA image with eight bits per channel.
pub struct PixelGrid {
    width: u32,
    height: u32,
    data: Vec<u8>,
}

impl View for PixelGrid {
    type V = GridModel;

    closed spec fn view(&self) -> GridModel {
        GridModel {
            width: self.width as nat,
            height: self.height as nat,
            pixels: pixels_of_bytes(self.data@),
        }
    }
}

impl PixelGrid {
    #[verifier::type_invariant]
    spec fn holds_whole_grid(self) -> bool {
        self.data@.len() == 4 * ((self.width as int) * (self.height as int))
    }

    /// Builds a grid from a buffer of R, G, B, A bytes in raster order.
    /// The buffer must hold exactly `width * height` pixels.
    pub fn from_raw(width: u32, height: u32, data: Vec<u8>) -> (grid: Option<PixelGrid>)
        ensures
            grid is Some <==> data@.len() == 4 * (width * height),
            grid matches Some(g) ==> g@ == (GridModel {
                width: width as nat,
                height: height as nat,
                pixels: pixels_of_bytes(data@),
            }) && g@.wf(),
    {
        assert(width * height <= 0xFFFF_FFFF * 0xFFFF_FFFF) by (nonlinear_arith)
            requires
                width <= 0xFFFF_FFFF,
                height <= 0xFFFF_FFFF,
        ;
        let cells: u128 = (width as u128) * (height as u128);
        if data.len() as u128 == 4 * cells {
            Some(PixelGrid { width, height, data })
        } else {
            None
        }
    }

    /// Gives the grid's pixels back as R, G, B, A bytes in raster order.
    pub fn into_raw(self) -> (data: Vec<u8>)
        ensures
            data@ == bytes_of_pixels(self@.pixels),
            data@.len() == 4 * (self@.width * self@.height),
    {
        proof {
            use_type_invariant(&self);
            lemma_bytes_round_trip(self.data@);
        }
        self.data
    }

    /// The grid's pixels as R, G, B, A bytes in raster order.
    pub fn as_raw(&self) -> (data: &Vec<u8>)
        ensures
            data@ == bytes_of_pixels(self@.pixels),
            data@.len() == 4 * (self@.width * self@.height),
            self@.wf(),
    {
        proof {
            use_type_invariant(self);
            lemma_bytes_round_trip(self.data@);
        }
        &self.data
    }

    /// Number of columns.
    pub fn width(&self) -> (w: u32)
        ensures
            w == self@.width,
            self@.wf(),
    {
        proof {
            use_type_invariant(self);
        }
        self.width
    }

    /// Number of rows.
    pub fn height(&self) -> (h: u32)
        ensures
            h == self@.height,
            self@.wf(),
    {
        proof {
            use_type_invariant(self);
        }
        self.height
    }

    /// Number of pixels.
    pub fn pixel_count(&self) -> (n: usize)
        ensures
            n == self@.pixels.len(),
            n == self@.width * self@.height,
    {
        proof {
            use_type_invariant(self);
        }
        self.data.len() / 4
    }

    /// The pixel at position `index` in raster order.
    pub fn pixel(&self, index: usize) -> (color: Rgba8)
        requires
            index < self@.pixels.len(),
        ensures
            color == self@.pixels[index as int],
    {
        proof {
            use_type_invariant(self);
            assert(self.data@.len() == self.data.len());
        }
        let at: usize = 4 * index;
        Rgba8 { r: self.data[at], g: self.data[at + 1], b: self.data[at + 2], a: self.data[at + 3] }
    }

    /// The pixel at column `x`, row `y`.
    pub fn get_pixel(&self, x: u32, y: u32) -> (color: Rgba8)
        requires
            x < self@.width,
            y < self@.height,
        ensures
            color == self@.pixel_at(x as int, y as int),
    {
        proof {
            use_type_invariant(self);
            lemma_index_in_bounds(x as int, y as int, self.width as int, self.height as int);
            assert(self.data@.len() == self.data.len());
        }
        let index: usize = (y as usize) * (self.width as usize) + (x as usize);
        self.pixel(index)
    }

    /// Number of pixels of exactly the given colour.
    pub fn count_color(&self, color: Rgba8) -> (n: usize)
        ensures
            n == self@.pixels.to_multiset().count(color),
    {
        let total: usize = self.pixel_count();
        proof {
            self@.pixels.take(0).to_multiset_ensures();
        }
        let mut n: usize = 0;
        let mut i: usize = 0;
        while i < total
            invariant
                i <= total,
                total == self@.pixels.len(),
                n <= i,
                n == self@.pixels.take(i as int).to_multiset().count(color),
            decreases total - i,
        {
            let p: Rgba8 = self.pixel(i);
            proof {
                let before = self@.pixels.take(i as int);
                assert(self@.pixels.take(i + 1) =~= before.push(p));
                vstd::seq_lib::to_multiset_build(before, p);
            }
            if p == color {
                n = n + 1;
            }
            i = i + 1;
        }
        proof {
            assert(self@.pixels.take(total as int) =~= self@.pixels);
        }
        n
    }
}

} // verus!
