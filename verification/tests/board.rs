use hexboard::board::{board_tiles, center, is_board_tile, TilePos, MAP_RADIUS, MAP_SIDE};
use hexboard::click::{click_target, find_tile};

#[test]
fn board_constants() {
    assert_eq!(MAP_RADIUS, 5);
    assert_eq!(MAP_SIDE, 10);
    assert_eq!(center(), TilePos { x: 5, y: 5 });
}

#[test]
fn membership_of_center_and_corners() {
    assert!(is_board_tile(TilePos { x: 5, y: 5 }));
    assert!(!is_board_tile(TilePos { x: 0, y: 0 }));
    assert!(!is_board_tile(TilePos { x: 10, y: 10 }));
    assert!(is_board_tile(TilePos { x: 0, y: 10 }));
    assert!(is_board_tile(TilePos { x: 10, y: 0 }));
}

#[test]
fn membership_at_the_rim() {
    assert!(is_board_tile(TilePos { x: 0, y: 5 }));
    assert!(!is_board_tile(TilePos { x: 0, y: 4 }));
    assert!(is_board_tile(TilePos { x: 10, y: 5 }));
    assert!(!is_board_tile(TilePos { x: 10, y: 6 }));
    assert!(is_board_tile(TilePos { x: 5, y: 0 }));
    assert!(is_board_tile(TilePos { x: 5, y: 10 }));
    assert!(!is_board_tile(TilePos { x: 11, y: 5 }));
    assert!(!is_board_tile(TilePos { x: 5, y: 11 }));
}

#[test]
fn tile_count_is_ninety_one() {
    // 3 * r * (r + 1) + 1 tiles in a hexagonal disk of radius r = 5.
    assert_eq!(board_tiles().len(), 91);
}

#[test]
fn tiles_agree_with_membership() {
    let tiles = board_tiles();
    let mut x: u32 = 0;
    while x <= 12 {
        let mut y: u32 = 0;
        while y <= 12 {
            let p = TilePos { x, y };
            let listed = tiles.iter().any(|t| *t == p);
            assert_eq!(listed, is_board_tile(p));
            y += 1;
        }
        x += 1;
    }
}

#[test]
fn tiles_are_sorted_and_distinct() {
    let tiles = board_tiles();
    let mut i: usize = 1;
    while i < tiles.len() {
        let a = tiles[i - 1];
        let b = tiles[i];
        assert!(a.x < b.x || (a.x == b.x && a.y < b.y));
        i += 1;
    }
}

#[test]
fn first_listed_tile_is_lowest_column() {
    let tiles = board_tiles();
    assert_eq!(tiles[0], TilePos { x: 0, y: 5 });
    assert_eq!(tiles[tiles.len() - 1], TilePos { x: 10, y: 5 });
}

#[test]
fn find_tile_returns_first_match() {
    let tiles = vec![
        TilePos { x: 1, y: 2 },
        TilePos { x: 3, y: 4 },
        TilePos { x: 3, y: 4 },
        TilePos { x: 5, y: 6 },
    ];
    assert_eq!(find_tile(&tiles, TilePos { x: 3, y: 4 }), Some(1));
    assert_eq!(find_tile(&tiles, TilePos { x: 1, y: 2 }), Some(0));
    assert_eq!(find_tile(&tiles, TilePos { x: 5, y: 6 }), Some(3));
    assert_eq!(find_tile(&tiles, TilePos { x: 9, y: 9 }), None);
    assert_eq!(find_tile(&Vec::new(), TilePos { x: 0, y: 0 }), None);
}

#[test]
fn click_needs_a_press() {
    assert_eq!(click_target(false, Some(TilePos { x: 5, y: 5 })), None);
    assert_eq!(click_target(false, None), None);
}

#[test]
fn click_needs_a_cursor_tile() {
    assert_eq!(click_target(true, None), None);
}

#[test]
fn click_needs_a_board_tile() {
    assert_eq!(click_target(true, Some(TilePos { x: 0, y: 0 })), None);
    assert_eq!(click_target(true, Some(TilePos { x: 10, y: 6 })), None);
}

#[test]
fn click_highlights_the_tile_under_the_cursor() {
    assert_eq!(
        click_target(true, Some(TilePos { x: 5, y: 5 })),
        Some(TilePos { x: 5, y: 5 })
    );
    assert_eq!(
        click_target(true, Some(TilePos { x: 0, y: 10 })),
        Some(TilePos { x: 0, y: 10 })
    );
}

#[test]
fn clicked_tile_is_always_spawned() {
    let tiles = board_tiles();
    let mut x: u32 = 0;
    while x <= 12 {
        let mut y: u32 = 0;
        while y <= 12 {
            if let Some(p) = click_target(true, Some(TilePos { x, y })) {
                assert!(find_tile(&tiles, p).is_some());
            }
            y += 1;
        }
        x += 1;
    }
}
