//! Work-group geometry for batched dispatch of per-pixel passes.
//!
//! A canvas is processed in fixed-size tiles; these helpers say how large a
//! tile is and how many tiles cover a dimension.

use vstd::prelude::*;

verus! {

/// Width of one tile, in pixels.
pub fn get_workgroup_width() -> (r: u32)
    ensures
        r == 16,
{
    16
}

/// Height of one tile, in pixels.
pub fn get_workgroup_height() -> (r: u32)
    ensures
        r == 16,
{
    16
}

/// Depth of one tile; dispatch is two-dimensional.
pub fn get_workgroup_depth() -> (r: u32)
    ensures
        r == 1,
{
    1
}

/// Number of tiles covering `dimension` pixels horizontally: the dimension
/// divided by the tile width, rounded up.
pub fn get_workgroup_count_width(dimension: u32) -> (r: u32)
    ensures
        r == (dimension + 15) / 16,
{
    (dimension / 16) + (if dimension % 16 == 0 {
        0
    } else {
        1
    })
}

/// Number of tiles covering `dimension` pixels vertically: the dimension
/// divided by the tile height, rounded up.
pub fn get_workgroup_count_height(dimension: u32) -> (r: u32)
    ensures
        r == (dimension + 15) / 16,
{
    (dimension / 16) + (if dimension % 16 == 0 {
        0
    } else {
        1
    })
}

/// Number of tiles along the depth axis: one per unit of depth.
pub fn get_workgroup_count_depth(dimension: u32) -> (r: u32)
    ensures
        r == dimension,
{
    dimension
}

} // verus!
