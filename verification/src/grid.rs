//! Index arithmetic for row-major grids.

use vstd::prelude::*;

verus! {

/// A cell inside a `width`-by-`height` grid has a flat index inside the grid's
/// backing sequence.
pub proof fn lemma_grid_index_bound(x: int, y: int, width: int, height: int)
    requires
        0 <= x < width,
        0 <= y < height,
    ensures
        0 <= y * width + x < width * height,
{
    assert(0 <= y * width + x < width * height) by (nonlinear_arith)
        requires
            0 <= x < width,
            0 <= y < height,
    ;
}

/// Splitting a flat index back into its column and row.
pub proof fn lemma_grid_index_split(i: int, width: int)
    requires
        0 <= i,
        0 < width,
    ensures
        i == (i / width) * width + (i % width),
        0 <= i % width < width,
        0 <= i / width,
{
    assert(i == (i / width) * width + (i % width) && 0 <= i % width < width && 0 <= i / width)
        by (nonlinear_arith)
        requires
            0 <= i,
            0 < width,
    ;
}

/// The flat index of a cell splits back into that cell's coordinates.
pub proof fn lemma_grid_index_roundtrip(x: int, y: int, width: int)
    requires
        0 <= x < width,
        0 <= y,
    ensures
        (y * width + x) / width == y,
        (y * width + x) % width == x,
{
    assert((y * width + x) / width == y && (y * width + x) % width == x) by (nonlinear_arith)
        requires
            0 <= x < width,
            0 <= y,
    ;
}

/// A flat index of a grid with `height`-sized columns yields in-range
/// coordinates.
pub proof fn lemma_flat_index_coords(p: int, width: int, height: int)
    requires
        0 <= p < width * height,
        0 <= width,
        0 <= height,
    ensures
        0 < width,
        0 < height,
        0 <= p / height < width,
        0 <= p % height < height,
{
    assert(0 < width && 0 < height) by (nonlinear_arith)
        requires
            0 <= p < width * height,
            0 <= width,
            0 <= height,
    ;
    lemma_grid_index_split(p, height);
    let q = p / height;
    let r = p % height;
    assert(q < width) by (nonlinear_arith)
        requires
            p == q * height + r,
            0 <= r < height,
            p < width * height,
            0 < height,
            0 <= q,
    ;
}

/// Multiplication commutes.
pub proof fn lemma_mul_comm(a: int, b: int)
    ensures
        a * b == b * a,
{
    assert(a * b == b * a) by (nonlinear_arith);
}

/// Finishing one row of a row-major walk advances the flat index by one
/// row's width.
pub proof fn lemma_row_step(y: int, width: int)
    ensures
        (y + 1) * width == y * width + width,
{
    assert((y + 1) * width == y * width + width) by (nonlinear_arith);
}

/// Scaling a product by a constant factor associates.
pub proof fn lemma_scale_assoc(k: int, a: int, b: int)
    ensures
        k * a * b == k * (a * b),
{
    assert(k * a * b == k * (a * b)) by (nonlinear_arith);
}

/// Multiplying both factors within bounds keeps the product within the bound
/// of the products of the bounds.
pub proof fn lemma_mul_le(a: int, b: int, c: int, d: int)
    requires
        0 <= a <= c,
        0 <= b <= d,
    ensures
        a * b <= c * d,
{
    assert(a * b <= c * d) by (nonlinear_arith)
        requires
            0 <= a <= c,
            0 <= b <= d,
    ;
}

} // verus!
