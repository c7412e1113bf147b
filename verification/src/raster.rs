//! The image as data: colours, pixel records and the order in which the
//! coordinates of the grid are produced.

use vstd::prelude::*;
use vstd::arithmetic::div_mod::{lemma_fundamental_div_mod, lemma_multiply_divide_lt};

verus! {

/// Image width of the standard picture, in pixels.
pub const WIDTH: u32 = 300;

/// Image height of the standard picture, in pixels.
pub const HEIGHT: u32 = 300;

/// Iteration budget of the standard picture.
pub const ITERATIONS: u32 = 300;

/// A colour with eight bits per channel.
#[derive(Clone, Copy, Debug, PartialEq, Eq, Structural)]
pub struct Rgb {
    pub r: u8,
    pub g: u8,
    pub b: u8,
}

/// One computed pixel: where it lies and what colour it has.
#[derive(Clone, Copy, Debug, PartialEq, Eq, Structural)]
pub struct PixelResult {
    pub x: u32,
    pub y: u32,
    pub color: Rgb,
}

impl PixelResult {
    /// The pixel lies on an image of `width` by `height` pixels.
    pub open spec fn inside(self, width: u32, height: u32) -> bool {
        self.x < width && self.y < height
    }

    /// The pixel's coordinate.
    pub open spec fn coordinate(self) -> (u32, u32) {
        (self.x, self.y)
    }
}

/// The coordinates of scanline `y`, left to right.
pub open spec fn row_coordinates(y: u32, width: u32) -> Seq<(u32, u32)> {
    Seq::new(width as nat, |x: int| (x as u32, y))
}

/// The coordinates of the scanlines `0..rows`, one scanline after the other.
pub open spec fn grid_coordinates(width: u32, rows: nat) -> Seq<(u32, u32)>
    decreases rows,
{
    if rows == 0 {
        Seq::empty()
    } else {
        grid_coordinates(width, (rows - 1) as nat) + row_coordinates((rows - 1) as u32, width)
    }
}

/// The scanlines `0..rows` hold `width * rows` coordinates between them.
pub proof fn lemma_grid_len(width: u32, rows: nat)
    ensures
        grid_coordinates(width, rows).len() == width * rows,
    decreases rows,
{
    if rows == 0 {
        assert(width * rows == 0) by (nonlinear_arith)
            requires
                rows == 0,
        ;
    } else {
        let above = (rows - 1) as nat;
        lemma_grid_len(width, above);
        assert(width * above + width == width * rows) by (nonlinear_arith)
            requires
                above == rows - 1,
        ;
    }
}

/// Coordinate `(x, y)` is produced at position `y * width + x`.
pub proof fn lemma_grid_at(width: u32, rows: nat, x: u32, y: u32)
    requires
        x < width,
        y < rows,
        rows <= u32::MAX + 1,
    ensures
        y * width + x < grid_coordinates(width, rows).len(),
        grid_coordinates(width, rows)[y * width + x] == (x, y),
    decreases rows,
{
    let above = (rows - 1) as nat;
    lemma_grid_len(width, above);
    lemma_grid_len(width, rows);
    assert(width * above + width == width * rows) by (nonlinear_arith)
        requires
            above == rows - 1,
    ;
    if y == above {
        assert(y * width == width * above) by (nonlinear_arith)
            requires
                y == above,
        ;
        assert(row_coordinates(y, width)[x as int] == (x, y));
    } else {
        lemma_grid_at(width, above, x, y);
    }
}

/// The coordinate at position `k` is `(k % width, k / width)`.
pub proof fn lemma_grid_position(width: u32, rows: nat, k: nat)
    requires
        k < width * rows,
        rows <= u32::MAX + 1,
    ensures
        k < grid_coordinates(width, rows).len(),
        k % (width as nat) < width,
        k / (width as nat) < rows,
        grid_coordinates(width, rows)[k as int]
            == ((k % (width as nat)) as u32, (k / (width as nat)) as u32),
{
    assert(width > 0) by (nonlinear_arith)
        requires
            k < width * rows,
    ;
    lemma_fundamental_div_mod(k as int, width as int);
    lemma_multiply_divide_lt(k as int, width as int, rows as int);
    let x = (k % (width as nat)) as u32;
    let y = (k / (width as nat)) as u32;
    assert(y * width == width * (k as int / width as int)) by (nonlinear_arith)
        requires
            y == k as int / width as int,
    ;
    lemma_grid_at(width, rows, x, y);
}

/// Every coordinate of the image is produced exactly once, and nothing else
/// is produced.
pub proof fn lemma_grid_exactly_once(width: u32, height: u32)
    ensures
        grid_coordinates(width, height as nat).len() == width * height,
        grid_coordinates(width, height as nat).no_duplicates(),
        forall|x: u32, y: u32|
            grid_coordinates(width, height as nat).contains((x, y)) <==> (x < width && y < height),
{
    let grid = grid_coordinates(width, height as nat);
    lemma_grid_len(width, height as nat);
    assert forall|i: int, j: int|
        0 <= i < grid.len() && 0 <= j < grid.len() && i != j
        implies grid[i] != grid[j] by {
        lemma_grid_position(width, height as nat, i as nat);
        lemma_grid_position(width, height as nat, j as nat);
        lemma_fundamental_div_mod(i, width as int);
        lemma_fundamental_div_mod(j, width as int);
        if grid[i] == grid[j] {
            assert(i % (width as int) == j % (width as int));
            assert(i / (width as int) == j / (width as int));
            assert(false);
        }
    }
    assert forall|x: u32, y: u32| grid.contains((x, y)) <==> (x < width && y < height) by {
        if x < width && y < height {
            lemma_grid_at(width, height as nat, x, y);
            assert(grid[y * width + x] == (x, y));
        }
        if grid.contains((x, y)) {
            let k = choose|k: int| 0 <= k < grid.len() && grid[k] == (x, y);
            lemma_grid_position(width, height as nat, k as nat);
        }
    }
}

} // verus!
