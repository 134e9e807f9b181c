//! Work-group counts of the image-synthesis dispatch.

use vstd::prelude::*;

verus! {

/// Edge length, in pixels, of the square tile that one work-group paints.
pub const WORKGROUP_SIZE: u32 = 16;

/// Number of whole tiles that fit along an extent of `pixels`.
pub open spec fn whole_tiles(pixels: u32) -> u32 {
    pixels / WORKGROUP_SIZE
}

/// Pixels at the far end of an extent that no whole tile reaches.
pub open spec fn border(pixels: u32) -> u32 {
    pixels % WORKGROUP_SIZE
}

/// The grid of work-groups dispatched for a `width` x `height` image:
/// whole tiles along each axis, one layer deep.
///
/// The counts round down. Where an extent is no multiple of the tile size,
/// the last `border(..)` pixels along it are left as they were.
pub fn dispatch_groups(width: u32, height: u32) -> (groups: (u32, u32, u32))
    ensures
        groups == (whole_tiles(width), whole_tiles(height), 1u32),
        groups.0 * WORKGROUP_SIZE + border(width) == width,
        groups.1 * WORKGROUP_SIZE + border(height) == height,
{
    (width / WORKGROUP_SIZE, height / WORKGROUP_SIZE, 1)
}

/// Number of tiles that it takes to cover an extent of `pixels`: the whole
/// tiles, and one more where a border is left.
pub open spec fn covering_tiles(pixels: u32) -> u32 {
    if border(pixels) == 0 {
        whole_tiles(pixels)
    } else {
        (whole_tiles(pixels) + 1) as u32
    }
}

/// The smallest grid of work-groups whose tiles cover a `width` x `height`
/// image. It is the grid of `dispatch_groups` exactly when both extents
/// are multiples of the tile size.
pub fn covering_groups(width: u32, height: u32) -> (groups: (u32, u32, u32))
    ensures
        groups == (covering_tiles(width), covering_tiles(height), 1u32),
        groups.0 * WORKGROUP_SIZE >= width,
        groups.1 * WORKGROUP_SIZE >= height,
        groups.0 > 0 ==> (groups.0 - 1) * WORKGROUP_SIZE < width,
        groups.1 > 0 ==> (groups.1 - 1) * WORKGROUP_SIZE < height,
{
    let across = if width % WORKGROUP_SIZE == 0 {
        width / WORKGROUP_SIZE
    } else {
        width / WORKGROUP_SIZE + 1
    };
    let down = if height % WORKGROUP_SIZE == 0 {
        height / WORKGROUP_SIZE
    } else {
        height / WORKGROUP_SIZE + 1
    };
    (across, down, 1)
}

/// Width and height of the strip at the right and bottom edge that the
/// dispatch of `dispatch_groups` does not paint.
pub fn uncovered_border(width: u32, height: u32) -> (strip: (u32, u32))
    ensures
        strip == (border(width), border(height)),
        strip.0 < WORKGROUP_SIZE,
        strip.1 < WORKGROUP_SIZE,
{
    (width % WORKGROUP_SIZE, height % WORKGROUP_SIZE)
}

/// Whether the dispatch paints every pixel of a `width` x `height` image.
pub fn covers_exactly(width: u32, height: u32) -> (exact: bool)
    ensures
        exact <==> border(width) == 0 && border(height) == 0,
        exact <==> whole_tiles(width) * WORKGROUP_SIZE == width && whole_tiles(height)
            * WORKGROUP_SIZE == height,
{
    width % WORKGROUP_SIZE == 0 && height % WORKGROUP_SIZE == 0
}

/// The tiles of a dispatch never reach past the image, and what they leave
/// out along an axis is narrower than one tile: the dispatch is at most
/// one tile short of covering, and not short at all exactly on multiples
/// of the tile size.
pub proof fn lemma_dispatch_undershoots(pixels: u32)
    ensures
        whole_tiles(pixels) * WORKGROUP_SIZE <= pixels,
        pixels - whole_tiles(pixels) * WORKGROUP_SIZE == border(pixels),
        border(pixels) < WORKGROUP_SIZE,
        whole_tiles(pixels) <= covering_tiles(pixels) <= whole_tiles(pixels) + 1,
        whole_tiles(pixels) == covering_tiles(pixels) <==> pixels % WORKGROUP_SIZE == 0,
{
}

} // verus!
