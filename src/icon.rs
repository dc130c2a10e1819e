//! Icon lookup. No icon set ships with this library, so no name resolves.
use vstd::prelude::*;

verus! {

/// The markup of the icon `name` at `size` pixels in the colour `(r, g, b)`;
/// with no icon set available, never any.
pub fn get_icon(name: &Vec<u16>, size: usize, r: u8, g: u8, b: u8) -> (res: Option<Vec<u16>>)
    ensures
        res is None,
{
    None
}

} // verus!
