use vstd::prelude::*;

verus! {

/// Whether the checkerboard block with its corner at pixel (`x`, `y`) comes
/// from the first image: blocks alternate along rows and along columns.
pub fn block_from_first(x: u32, y: u32, step_width: u32, step_height: u32) -> (r: bool)
    requires
        step_width > 0,
        step_height > 0,
    ensures
        r == ((x / step_width + y / step_height) % 2 == 0),
{
    let column = (x / step_width) as u64;
    let row = (y / step_height) as u64;
    (column + row) % 2 == 0
}

/// The extent of a block that starts at `pos`: a full step, or what is left
/// before `limit` at the edge.
pub fn block_extent(pos: u32, step: u32, limit: u32) -> (r: u32)
    requires
        pos < limit,
    ensures
        r == if pos + step < limit { step as int } else { limit - pos },
{
    if step < limit - pos {
        step
    } else {
        limit - pos
    }
}

} // verus!
