//! Deciding what a mouse click highlights.

use crate::board::{in_board, is_board_tile, TilePos};
use vstd::prelude::*;

verus! {

/// What a click highlights: the tile under the cursor, when the button
/// was just pressed, the cursor resolves to a tile position, and that
/// position lies on the board; nothing otherwise.
pub open spec fn click_spec(clicked: bool, cursor: Option<TilePos>) -> Option<TilePos> {
    if clicked {
        match cursor {
            Option::Some(c) => if in_board(c) {
                Option::Some(c)
            } else {
                Option::None
            },
            Option::None => Option::None,
        }
    } else {
        Option::None
    }
}

/// Decides which tile a click highlights, given whether the button was
/// just pressed and the tile position the cursor resolves to, if any.
pub fn click_target(clicked: bool, cursor: Option<TilePos>) -> (r: Option<TilePos>)
    ensures
        r == click_spec(clicked, cursor),
{
    if !clicked {
        return None;
    }
    match cursor {
        Some(c) => if is_board_tile(c) {
            Some(c)
        } else {
            None
        },
        None => None,
    }
}

/// Finds the first tile equal to `target` in a list of tile positions,
/// returning its index; `None` exactly when no tile matches.
pub fn find_tile(tiles: &Vec<TilePos>, target: TilePos) -> (r: Option<usize>)
    ensures
        match r {
            Option::Some(i) => {
                &&& 0 <= i < tiles@.len()
                &&& tiles@[i as int] == target
                &&& forall|j: int| 0 <= j < i ==> tiles@[j] != target
            },
            Option::None => forall|j: int| 0 <= j < tiles@.len() ==> tiles@[j] != target,
        },
{
    let mut i: usize = 0;
    while i < tiles.len()
        invariant
            i <= tiles@.len(),
            forall|j: int| 0 <= j < i ==> tiles@[j] != target,
        decreases tiles@.len() - i,
    {
        let t = tiles[i];
        if t == target {
            return Some(i);
        }
        i += 1;
    }
    None
}

} // verus!
