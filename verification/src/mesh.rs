use vstd::prelude::*;

verus! {

/// The number of corners of the shower's box.
pub const SHOWER_CORNERS: u16 = 8;

/// The order in which the shower's box is outlined: two triangles for each
/// of its six faces, by the indices of its eight corners.
pub open spec fn shower_outline() -> Seq<u16> {
    seq![
        0u16, 1, 2, 2, 3, 0,
        4, 0, 3, 3, 7, 4,
        5, 4, 7, 7, 6, 5,
        1, 5, 6, 6, 2, 1,
        4, 5, 1, 1, 0, 4,
        3, 2, 6, 6, 7, 3,
    ]
}

/// The indices by which the shower's box is outlined; each names one of its
/// corners.
pub fn shower_indices() -> (indices: [u16; 36])
    ensures
        indices@ == shower_outline(),
        forall|k: int| 0 <= k < 36 ==> #[trigger] indices@[k] < SHOWER_CORNERS,
{
    let indices: [u16; 36] = [
        0, 1, 2,
        2, 3, 0,
        4, 0, 3,
        3, 7, 4,
        5, 4, 7,
        7, 6, 5,
        1, 5, 6,
        6, 2, 1,
        4, 5, 1,
        1, 0, 4,
        3, 2, 6,
        6, 7, 3,
    ];
    assert(indices@ =~= shower_outline());
    indices
}

} // verus!
