//! Axial hex-coordinate arithmetic.

use vstd::prelude::*;

verus! {

/// Magnitude of a mathematical integer.
pub open spec fn mag(a: int) -> int {
    if a < 0 {
        -a
    } else {
        a
    }
}

/// Distance, in steps between adjacent hexes, from the origin to the hex
/// with axial coordinates `(q, r)`.
pub open spec fn hex_dist(q: int, r: int) -> int {
    if mag(q) >= mag(r) && mag(q) >= mag(q + r) {
        mag(q)
    } else if mag(r) >= mag(q + r) {
        mag(r)
    } else {
        mag(q + r)
    }
}

/// The hexagonal disk of the given radius around the origin: every hex
/// whose axial coordinates lie within `rad` steps of the origin.
pub open spec fn in_hex_disk(q: int, r: int, rad: int) -> bool {
    hex_dist(q, r) <= rad
}

/// The disk is symmetric in its two axial coordinates, so reading a tile
/// position as `(q, r)` or as `(r, q)` carves out the same set of tiles.
pub proof fn lemma_hex_disk_transpose(q: int, r: int, rad: int)
    ensures
        in_hex_disk(q, r, rad) == in_hex_disk(r, q, rad),
{
}

} // verus!
