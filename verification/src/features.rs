//! The feature table handed to clustering: one row of position and colour
//! per pixel, in raster order.

use vstd::prelude::*;
use vstd::arithmetic::mul::lemma_mul_is_commutative;
use crate::grid::{GridModel, PixelGrid};
use crate::raster::{
    raster_index, raster_x, raster_y, lemma_coords_in_bounds, lemma_coords_round_trip,
    lemma_index_in_bounds, lemma_index_round_trip,
};

verus! {

/// One row of the feature table: where a pixel is and what colour it has.
/// Alpha is no feature.
#[derive(Clone, Copy, Debug, PartialEq, Eq, Structural)]
pub struct FeatureRow {
    pub x: u32,
    pub y: u32,
    pub r: u8,
    pub g: u8,
    pub b: u8,
}

/// Row `index` of the feature table of `grid`: the coordinates that raster
/// order gives to `index`, and the colour of the pixel stored there.
pub open spec fn feature_row(grid: GridModel, index: int) -> FeatureRow {
    let p = grid.pixels[index];
    FeatureRow {
        x: raster_x(index, grid.width as int) as u32,
        y: raster_y(index, grid.width as int) as u32,
        r: p.r,
        g: p.g,
        b: p.b,
    }
}

/// The feature table of `grid`: one row per pixel, in raster order.
pub open spec fn feature_table(grid: GridModel) -> Seq<FeatureRow> {
    Seq::new(grid.pixels.len(), |index: int| feature_row(grid, index))
}

/// The row of the pixel at column `x`, row `y` stands at position
/// `y * width + x` of the table and holds exactly `x`, `y` and that pixel's
/// red, green and blue.
pub proof fn lemma_row_of_pixel(grid: GridModel, x: int, y: int)
    requires
        grid.wf(),
        0 <= x < grid.width,
        0 <= y < grid.height,
    ensures
        0 <= raster_index(x, y, grid.width as int) < feature_table(grid).len(),
        feature_table(grid)[raster_index(x, y, grid.width as int)] == (FeatureRow {
            x: x as u32,
            y: y as u32,
            r: grid.pixel_at(x, y).r,
            g: grid.pixel_at(x, y).g,
            b: grid.pixel_at(x, y).b,
        }),
{
    lemma_index_in_bounds(x, y, grid.width as int, grid.height as int);
    lemma_coords_round_trip(x, y, grid.width as int);
}

/// Each row of the table names a pixel inside the grid, and raster order
/// puts that pixel at the row's own position: reading `x` and `y` back from
/// a row finds the pixel the row was made from.
pub proof fn lemma_pixel_of_row(grid: GridModel, index: int)
    requires
        grid.wf(),
        0 <= index < feature_table(grid).len(),
    ensures
        feature_table(grid)[index].x == index % (grid.width as int),
        feature_table(grid)[index].y == index / (grid.width as int),
        feature_table(grid)[index].x < grid.width,
        feature_table(grid)[index].y < grid.height,
        raster_index(
            feature_table(grid)[index].x as int,
            feature_table(grid)[index].y as int,
            grid.width as int,
        ) == index,
{
    assert(grid.width > 0) by (nonlinear_arith)
        requires
            0 <= index < grid.width * grid.height,
    ;
    lemma_coords_in_bounds(index, grid.width as int, grid.height as int);
    lemma_index_round_trip(index, grid.width as int);
}

/// Builds the feature table of an image.
pub fn feature_matrix(img: &PixelGrid) -> (rows: Vec<FeatureRow>)
    ensures
        rows@ == feature_table(img@),
        rows@.len() == img@.width * img@.height,
{
    let width: u32 = img.width();
    let height: u32 = img.height();
    let mut rows: Vec<FeatureRow> = Vec::new();
    let mut y: u32 = 0;
    while y < height
        invariant
            y <= height,
            width == img@.width,
            height == img@.height,
            img@.wf(),
            rows@.len() == y * width,
            forall|i: int| 0 <= i < rows@.len() ==> rows@[i] == feature_row(img@, i),
        decreases height - y,
    {
        let mut x: u32 = 0;
        while x < width
            invariant
                x <= width,
                y < height,
                width == img@.width,
                height == img@.height,
                img@.wf(),
                rows@.len() == y * width + x,
                forall|i: int| 0 <= i < rows@.len() ==> rows@[i] == feature_row(img@, i),
            decreases width - x,
        {
            proof {
                lemma_index_in_bounds(x as int, y as int, width as int, height as int);
                lemma_coords_round_trip(x as int, y as int, width as int);
            }
            let p = img.pixel(rows.len());
            rows.push(FeatureRow { x, y, r: p.r, g: p.g, b: p.b });
            x = x + 1;
        }
        proof {
            assert((y + 1) * width == y * width + width) by (nonlinear_arith);
        }
        y = y + 1;
    }
    proof {
        lemma_mul_is_commutative(width as int, height as int);
        assert(rows@ =~= feature_table(img@));
    }
    rows
}

} // verus!
