//! The board: a hexagonal disk of tiles on a square grid.

use crate::hex::in_hex_disk;
use vstd::prelude::*;

verus! {

/// Radius of the board, in tiles, around the center tile.
pub const MAP_RADIUS: u32 = 5;

/// Side length of the square tile grid that the board is laid out on.
pub const MAP_SIDE: u32 = MAP_RADIUS * 2;

/// A position on the tile grid. For a column-oriented hexagonal grid the
/// two components are read directly as axial hex coordinates.
#[derive(Clone, Copy, Debug, PartialEq, Eq, Structural)]
pub struct TilePos {
    pub x: u32,
    pub y: u32,
}

/// The center tile of the board.
pub open spec fn board_center() -> TilePos {
    TilePos { x: MAP_RADIUS, y: MAP_RADIUS }
}

/// A tile position lies on the board when it is within `MAP_RADIUS` hex
/// steps of the center tile.
pub open spec fn in_board(p: TilePos) -> bool {
    in_hex_disk(
        p.x - board_center().x,
        p.y - board_center().y,
        MAP_RADIUS as int,
    )
}

/// The center tile of the board, as a value.
pub fn center() -> (c: TilePos)
    ensures
        c == board_center(),
{
    TilePos { x: MAP_RADIUS, y: MAP_RADIUS }
}

/// Strict lexicographic order on tile positions, first by column, then
/// by row: the order in which `board_tiles` lists the board.
pub open spec fn lex_lt(a: TilePos, b: TilePos) -> bool {
    a.x < b.x || (a.x == b.x && a.y < b.y)
}

/// Every board tile lies on the square grid: each component is at most
/// `MAP_SIDE`.
pub proof fn lemma_board_on_grid(p: TilePos)
    requires
        in_board(p),
    ensures
        p.x <= MAP_SIDE,
        p.y <= MAP_SIDE,
{
}

/// Decides board membership of a tile position.
pub fn is_board_tile(p: TilePos) -> (r: bool)
    ensures
        r == in_board(p),
{
    let rad: i64 = MAP_RADIUS as i64;
    let dq: i64 = p.x as i64 - rad;
    let dr: i64 = p.y as i64 - rad;
    let ds: i64 = dq + dr;
    -rad <= dq && dq <= rad && -rad <= dr && dr <= rad && -rad <= ds && ds <= rad
}

/// Lists every tile position of the board, in lexicographic order and
/// without repetition: exactly the positions within `MAP_RADIUS` hex
/// steps of the center tile.
pub fn board_tiles() -> (tiles: Vec<TilePos>)
    ensures
        forall|i: int| 0 <= i < tiles@.len() ==> in_board(#[trigger] tiles@[i]),
        forall|p: TilePos| in_board(p) ==> tiles@.contains(p),
        forall|i: int, j: int| 0 <= i < j < tiles@.len() ==> lex_lt(tiles@[i], tiles@[j]),
        forall|i: int, j: int| 0 <= i < j < tiles@.len() ==> tiles@[i] != tiles@[j],
{
    let mut tiles: Vec<TilePos> = Vec::new();
    let mut x: u32 = 0;
    while x <= MAP_SIDE
        invariant
            x <= MAP_SIDE + 1,
            forall|i: int| 0 <= i < tiles@.len() ==> in_board(#[trigger] tiles@[i]),
            forall|i: int| 0 <= i < tiles@.len() ==> (#[trigger] tiles@[i]).x < x,
            forall|p: TilePos| in_board(p) && p.x < x ==> tiles@.contains(p),
            forall|i: int, j: int| 0 <= i < j < tiles@.len() ==> lex_lt(tiles@[i], tiles@[j]),
        decreases MAP_SIDE + 1 - x,
    {
        let mut y: u32 = 0;
        while y <= MAP_SIDE
            invariant
                x <= MAP_SIDE,
                y <= MAP_SIDE + 1,
                forall|i: int| 0 <= i < tiles@.len() ==> in_board(#[trigger] tiles@[i]),
                forall|i: int|
                    0 <= i < tiles@.len() ==> lex_lt(
                        #[trigger] tiles@[i],
                        TilePos { x, y },
                    ),
                forall|p: TilePos|
                    in_board(p) && lex_lt(p, TilePos { x, y }) ==> tiles@.contains(p),
                forall|i: int, j: int| 0 <= i < j < tiles@.len() ==> lex_lt(tiles@[i], tiles@[j]),
            decreases MAP_SIDE + 1 - y,
        {
            let p = TilePos { x, y };
            if is_board_tile(p) {
                let ghost before = tiles@;
                tiles.push(p);
                proof {
                    assert forall|q: TilePos|
                        in_board(q) && lex_lt(q, TilePos { x, y: (y + 1) as u32 })
                        implies tiles@.contains(q) by {
                        if q == p {
                            assert(tiles@[before.len() as int] == q);
                        } else {
                            assert(lex_lt(q, TilePos { x, y }));
                            assert(before.contains(q));
                            let k = choose|k: int| 0 <= k < before.len() && before[k] == q;
                            assert(tiles@[k] == q);
                        }
                    }
                }
            } else {
                proof {
                    assert forall|q: TilePos|
                        in_board(q) && lex_lt(q, TilePos { x, y: (y + 1) as u32 })
                        implies tiles@.contains(q) by {
                        assert(q != TilePos { x, y });
                        assert(lex_lt(q, TilePos { x, y }));
                    }
                }
            }
            y += 1;
        }
        proof {
            assert forall|q: TilePos| in_board(q) && q.x < x + 1 implies tiles@.contains(q) by {
                lemma_board_on_grid(q);
                assert(lex_lt(q, TilePos { x, y: (MAP_SIDE + 1) as u32 }));
            }
        }
        x += 1;
    }
    proof {
        assert forall|p: TilePos| in_board(p) implies tiles@.contains(p) by {
            lemma_board_on_grid(p);
        }
        assert forall|i: int, j: int| 0 <= i < j < tiles@.len() implies tiles@[i]
            != tiles@[j] by {
            assert(lex_lt(tiles@[i], tiles@[j]));
        }
    }
    tiles
}

} // verus!
