//! Raster order: the correspondence between a pixel's coordinates and its
//! position in a row-major table.

use vstd::prelude::*;
use vstd::arithmetic::div_mod::{
    lemma_fundamental_div_mod, lemma_fundamental_div_mod_converse, lemma_multiply_divide_lt,
};
use vstd::arithmetic::mul::{lemma_mul_inequality, lemma_mul_is_commutative};

verus! {

/// Position of the pixel at column `x`, row `y` in a grid `width` wide.
pub open spec fn raster_index(x: int, y: int, width: int) -> int {
    y * width + x
}

/// Column of the pixel at position `index` in a grid `width` wide.
pub open spec fn raster_x(index: int, width: int) -> int {
    index % width
}

/// Row of the pixel at position `index` in a grid `width` wide.
pub open spec fn raster_y(index: int, width: int) -> int {
    index / width
}

/// Going from coordinates to a position and back returns the coordinates.
pub proof fn lemma_coords_round_trip(x: int, y: int, width: int)
    requires
        0 <= x < width,
    ensures
        raster_x(raster_index(x, y, width), width) == x,
        raster_y(raster_index(x, y, width), width) == y,
{
    lemma_fundamental_div_mod_converse(y * width + x, width, y, x);
}

/// Going from a position to coordinates and back returns the position, and
/// the column lies inside the grid.
pub proof fn lemma_index_round_trip(index: int, width: int)
    requires
        0 < width,
    ensures
        0 <= raster_x(index, width) < width,
        raster_index(raster_x(index, width), raster_y(index, width), width) == index,
{
    lemma_fundamental_div_mod(index, width);
    lemma_mul_is_commutative(width, index / width);
}

/// Every pixel of a `width` by `height` grid has a position below
/// `width * height`.
pub proof fn lemma_index_in_bounds(x: int, y: int, width: int, height: int)
    requires
        0 <= x < width,
        0 <= y < height,
    ensures
        0 <= raster_index(x, y, width) < width * height,
{
    assert(0 <= y * width) by (nonlinear_arith)
        requires
            0 <= y,
            0 < width,
    ;
    assert((y + 1) * width <= height * width) by {
        lemma_mul_inequality(y + 1, height, width);
    }
    assert((y + 1) * width == y * width + width) by (nonlinear_arith);
    lemma_mul_is_commutative(width, height);
}

/// Every position below `width * height` belongs to a pixel of the grid.
pub proof fn lemma_coords_in_bounds(index: int, width: int, height: int)
    requires
        0 <= index < width * height,
        0 < width,
    ensures
        0 <= raster_x(index, width) < width,
        0 <= raster_y(index, width) < height,
{
    lemma_index_round_trip(index, width);
    lemma_multiply_divide_lt(index, width, height);
    assert(0 <= index / width) by (nonlinear_arith)
        requires
            0 <= index,
            0 < width,
    ;
}

} // verus!
