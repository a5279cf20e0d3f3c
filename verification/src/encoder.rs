//! The encoder's raster: an RGBA8 pixel buffer that is looked up by running
//! index or by column and row.

use vstd::prelude::*;
use crate::raster::{lemma_cell_in_bounds, PixelSample, Raster};

verus! {

/// Holds the picture that a signal is scanned from.
pub struct NtscEncoder {
    width: u32,
    height: u32,
    pixel_buffer: Vec<u8>,
}

impl View for NtscEncoder {
    type V = Raster;

    closed spec fn view(&self) -> Raster {
        Raster {
            width: self.width as nat,
            height: self.height as nat,
            bytes: self.pixel_buffer@,
        }
    }
}

impl NtscEncoder {
    #[verifier::type_invariant]
    spec fn well_formed(self) -> bool {
        self@.wf()
    }

    /// A raster of the given size, every pixel black and fully transparent.
    pub fn new(width: u32, height: u32) -> (enc: Self)
        requires
            4 * (width * height) <= usize::MAX,
        ensures
            enc@ == Raster::blank(width as nat, height as nat),
    {
        assert(width * height <= usize::MAX) by (nonlinear_arith)
            requires
                4 * (width * height) <= usize::MAX,
        ;
        let count: usize = width as usize * height as usize;
        let pixel_buffer: Vec<u8> = vec![0u8; 4 * count];
        assert(pixel_buffer@ =~= Raster::blank(width as nat, height as nat).bytes);
        NtscEncoder { width, height, pixel_buffer }
    }

    /// A raster of the given size over the given RGBA8 bytes, row by row: the
    /// way a decoded picture comes in. The buffer must hold four bytes for
    /// each pixel, else there is no raster; bytes beyond them are dropped.
    pub fn from_rgba8(width: u32, height: u32, pixels: Vec<u8>) -> (res: Option<Self>)
        ensures
            match Raster::of_bytes(width as nat, height as nat, pixels@) {
                Some(raster) => res matches Some(enc) && enc@ == raster,
                None => res is None,
            },
    {
        assert(4 * (width * height) <= 4 * (0xffff_ffff * 0xffff_ffff)) by (nonlinear_arith)
            requires
                0 <= width <= 0xffff_ffff,
                0 <= height <= 0xffff_ffff,
        ;
        let need: u128 = 4 * (width as u128 * height as u128);
        let mut pixel_buffer: Vec<u8> = pixels;
        if need <= pixel_buffer.len() as u128 {
            pixel_buffer.truncate(need as usize);
            Some(NtscEncoder { width, height, pixel_buffer })
        } else {
            None
        }
    }

    /// The number of columns.
    pub fn width(&self) -> (w: u32)
        ensures
            w == self@.width,
            self@.wf(),
    {
        proof {
            use_type_invariant(self);
        }
        self.width
    }

    /// The number of rows.
    pub fn height(&self) -> (h: u32)
        ensures
            h == self@.height,
            self@.wf(),
    {
        proof {
            use_type_invariant(self);
        }
        self.height
    }

    /// Reads the four bytes of the pixel with the given number.
    fn pixel_at(&self, n: usize) -> (p: PixelSample)
        requires
            n < self@.pixel_count(),
        ensures
            p == self@.pixel(n as int),
    {
        proof {
            use_type_invariant(self);
            assert(self.pixel_buffer.len() == 4 * self@.pixel_count());
        }
        let at: usize = 4 * n;
        (
            self.pixel_buffer[at],
            self.pixel_buffer[at + 1],
            self.pixel_buffer[at + 2],
            self.pixel_buffer[at + 3],
        )
    }

    /// The pixel that a running index stands for. Indices past the last pixel
    /// wrap round to the first.
    pub fn sample_index(&self, idx: u32) -> (p: PixelSample)
        requires
            self@.width > 0,
            self@.height > 0,
        ensures
            p == self@.wrapped(idx as nat),
    {
        proof {
            use_type_invariant(self);
            lemma_cell_in_bounds(0, 0, self.width as int, self.height as int);
        }
        let count: usize = self.pixel_buffer.len() / 4;
        let n: usize = idx as usize % count;
        self.pixel_at(n)
    }

    /// The pixel at column `x` of row `y`. A coordinate past the last column or
    /// row is held to the last one.
    pub fn sample_pixel(&self, x: u32, y: u32) -> (p: PixelSample)
        requires
            self@.width > 0,
            self@.height > 0,
        ensures
            p == self@.clamped(x as nat, y as nat),
    {
        proof {
            use_type_invariant(self);
        }
        let col: u32 = if x < self.width { x } else { self.width - 1 };
        let row: u32 = if y < self.height { y } else { self.height - 1 };
        proof {
            lemma_cell_in_bounds(col as int, row as int, self.width as int, self.height as int);
            assert(self.pixel_buffer.len() == 4 * self@.pixel_count());
            assert(row * self.width + col < self@.pixel_count());
        }
        let n: usize = row as usize * self.width as usize + col as usize;
        self.pixel_at(n)
    }
}

} // verus!
