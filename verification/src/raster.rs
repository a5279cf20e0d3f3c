//! The mathematical content of a raster and how pixels are found in it.

use vstd::prelude::*;

verus! {

/// One RGBA8 pixel: red, green, blue, alpha.
pub type PixelSample = (u8, u8, u8, u8);

/// A raster as a mathematical value: its dimensions and its RGBA8 bytes, row
/// by row, four bytes to the pixel.
pub struct Raster {
    pub width: nat,
    pub height: nat,
    pub bytes: Seq<u8>,
}

/// The smaller of a coordinate and the last valid one, `size - 1`.
pub open spec fn clamp_coordinate(at: nat, size: nat) -> int {
    if at < size {
        at as int
    } else {
        size - 1
    }
}

/// A cell of a grid has a number below the grid's size.
pub proof fn lemma_cell_in_bounds(col: int, row: int, width: int, height: int)
    requires
        0 <= col < width,
        0 <= row < height,
    ensures
        0 <= row * width + col < width * height,
{
    assert(0 <= row * width && (row + 1) * width <= height * width) by (nonlinear_arith)
        requires
            0 <= row < height,
            0 <= width,
    ;
    assert((row + 1) * width == row * width + width) by (nonlinear_arith);
    assert(height * width == width * height) by (nonlinear_arith);
}

/// Two cells of a grid with the same number are the same cell.
pub proof fn lemma_cell_unique(col_a: int, row_a: int, col_b: int, row_b: int, width: int)
    requires
        0 <= col_a < width,
        0 <= col_b < width,
        row_a * width + col_a == row_b * width + col_b,
    ensures
        col_a == col_b,
        row_a == row_b,
{
    assert(row_a == row_b) by (nonlinear_arith)
        requires
            0 <= col_a < width,
            0 <= col_b < width,
            row_a * width + col_a == row_b * width + col_b,
    {
        if row_a < row_b {
            assert((row_b - row_a) * width >= width);
        } else if row_b < row_a {
            assert((row_a - row_b) * width >= width);
        }
    }
}

/// Whether a pixel carries no colour: red, green and blue are zero, whatever
/// the alpha.
pub open spec fn is_black(p: PixelSample) -> bool {
    p.0 == 0 && p.1 == 0 && p.2 == 0
}

impl Raster {
    /// The number of pixels.
    pub open spec fn pixel_count(self) -> nat {
        self.width * self.height
    }

    /// The byte buffer holds exactly four bytes for each pixel.
    pub open spec fn wf(self) -> bool {
        self.bytes.len() == 4 * self.pixel_count()
    }

    /// The raster of the given size whose every byte is zero: black and fully
    /// transparent.
    pub open spec fn blank(width: nat, height: nat) -> Raster {
        Raster { width, height, bytes: Seq::new(4 * (width * height), |i: int| 0u8) }
    }

    /// The raster that a width, a height and a byte buffer make: the buffer
    /// must hold four bytes for each pixel, and what it holds beyond them is
    /// left out. `None` where the buffer is too short.
    pub open spec fn of_bytes(width: nat, height: nat, bytes: Seq<u8>) -> Option<Raster> {
        if 4 * (width * height) <= bytes.len() {
            Some(Raster { width, height, bytes: bytes.take(4 * (width * height) as int) })
        } else {
            None
        }
    }

    /// The pixel with the given number, counting row by row from the top left.
    pub open spec fn pixel(self, n: int) -> PixelSample {
        (self.bytes[4 * n], self.bytes[4 * n + 1], self.bytes[4 * n + 2], self.bytes[4 * n + 3])
    }

    /// The pixel that a running index stands for: indices wrap round at the
    /// number of pixels.
    pub open spec fn wrapped(self, idx: nat) -> PixelSample {
        self.pixel((idx % self.pixel_count()) as int)
    }

    /// The number of the pixel that a column and a row stand for: each is
    /// held to its last valid value.
    pub open spec fn clamped_index(self, x: nat, y: nat) -> int {
        clamp_coordinate(y, self.height) * self.width + clamp_coordinate(x, self.width)
    }

    /// The pixel at a column and a row, each held to its last valid value.
    pub open spec fn clamped(self, x: nat, y: nat) -> PixelSample {
        self.pixel(self.clamped_index(x, y))
    }
}

/// A lookup by column and row never leaves the raster: the pixel it reads has
/// a number below the pixel count, and all four of its bytes lie in the
/// buffer. Past the last column and the last row it reads the last pixel.
pub proof fn lemma_clamped_in_raster(r: Raster, x: nat, y: nat)
    requires
        r.wf(),
        r.width > 0,
        r.height > 0,
    ensures
        0 <= r.clamped_index(x, y) < r.pixel_count(),
        4 * r.clamped_index(x, y) + 3 < r.bytes.len(),
        x < r.width && y < r.height ==> r.clamped_index(x, y) == y * r.width + x,
        x >= r.width && y < r.height ==> r.clamped_index(x, y) == y * r.width + (r.width - 1),
        x < r.width && y >= r.height ==> r.clamped_index(x, y) == (r.height - 1) * r.width + x,
        x >= r.width && y >= r.height ==> r.clamped_index(x, y) == r.pixel_count() - 1,
{
    lemma_cell_in_bounds(
        clamp_coordinate(x, r.width),
        clamp_coordinate(y, r.height),
        r.width as int,
        r.height as int,
    );
    assert((r.height - 1) * r.width + (r.width - 1) == r.width * r.height - 1)
        by (nonlinear_arith);
}

/// A lookup by running index never leaves the raster, and it repeats with
/// the number of pixels: any number of whole rounds further on, the same pixel
/// is read.
pub proof fn lemma_wrapped_repeats(r: Raster, idx: nat, rounds: nat)
    requires
        r.wf(),
        r.pixel_count() > 0,
    ensures
        0 <= idx % r.pixel_count() < r.pixel_count(),
        4 * (idx % r.pixel_count()) + 3 < r.bytes.len(),
        r.wrapped(idx + rounds * r.pixel_count()) == r.wrapped(idx),
{
    let count = r.pixel_count() as int;
    assert((idx + rounds * count) % count == idx as int % count) by (nonlinear_arith)
        requires
            count > 0,
            idx >= 0,
            rounds >= 0,
    {
        vstd::arithmetic::div_mod::lemma_mod_multiples_vanish(rounds as int, idx as int, count);
        assert(count * rounds + idx == idx + rounds * count);
    }
}

/// Where every pixel but one is black, a lookup by column and row finds a
/// colour only at that pixel: the column and the row, each held to its last
/// valid value, are that pixel's own.
pub proof fn lemma_lone_pixel(r: Raster, col: nat, row: nat, x: nat, y: nat)
    requires
        r.wf(),
        col < r.width,
        row < r.height,
        forall|n: int|
            0 <= n < r.pixel_count() && n != row * r.width + col ==> is_black(#[trigger] r.pixel(n)),
        !is_black(r.clamped(x, y)),
    ensures
        clamp_coordinate(x, r.width) == col,
        clamp_coordinate(y, r.height) == row,
{
    lemma_clamped_in_raster(r, x, y);
    lemma_cell_unique(
        clamp_coordinate(x, r.width),
        clamp_coordinate(y, r.height),
        col as int,
        row as int,
        r.width as int,
    );
}

} // verus!
