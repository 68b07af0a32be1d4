use smines::minefield::{
    FieldDimension, Minefield, MinefieldError, RevealError, Tile, TileFlagState, TileMineState,
};

fn field(x: usize, y: usize, mines: usize) -> Minefield {
    match Minefield::new(FieldDimension { x, y }, mines) {
        Ok(f) => f,
        Err(e) => panic!("generation failed: {:?}", e),
    }
}

fn is_mine(f: &Minefield, x: usize, y: usize) -> bool {
    f.get_tile(x, y).unwrap().mine_state == TileMineState::Mine
}

fn count_mines(f: &Minefield) -> usize {
    let size = f.size();
    let mut n = 0;
    for x in 0..size.x {
        for y in 0..size.y {
            if is_mine(f, x, y) {
                n += 1;
            }
        }
    }
    n
}

#[test]
fn generated_field_has_requested_mine_count() {
    for &(x, y, m) in &[(5, 4, 7), (16, 16, 40), (3, 3, 9), (1, 1, 0), (7, 2, 1), (10, 10, 99)] {
        let f = field(x, y, m);
        assert_eq!(count_mines(&f), m);
        assert_eq!(f.total_mines(), m);
        assert_eq!(f.size(), FieldDimension { x, y });
    }
}

#[test]
fn neighbour_counts_match_brute_force() {
    for &(x, y, m) in &[(5, 4, 7), (16, 16, 40), (8, 3, 12), (6, 6, 30), (1, 9, 4)] {
        for _ in 0..5 {
            let f = field(x, y, m);
            for cx in 0..x {
                for cy in 0..y {
                    let tile = f.get_tile(cx, cy).unwrap();
                    if let TileMineState::Empty(s) = tile.mine_state {
                        let mut expected = 0u8;
                        for dx in -1i64..=1 {
                            for dy in -1i64..=1 {
                                let nx = cx as i64 + dx;
                                let ny = cy as i64 + dy;
                                if (dx, dy) != (0, 0)
                                    && nx >= 0
                                    && ny >= 0
                                    && (nx as usize) < x
                                    && (ny as usize) < y
                                    && is_mine(&f, nx as usize, ny as usize)
                                {
                                    expected += 1;
                                }
                            }
                        }
                        assert_eq!(s, expected);
                        assert!(s <= 8);
                    }
                }
            }
        }
    }
}

#[test]
fn too_many_mines_fail_with_insufficient_space() {
    let r = Minefield::new(FieldDimension { x: 3, y: 3 }, 10);
    assert!(matches!(r, Err(MinefieldError::InsufficientSpace)));
    let r = Minefield::new(FieldDimension { x: 4, y: 1 }, 5);
    assert!(matches!(r, Err(MinefieldError::InsufficientSpace)));
    let r = Minefield::new(FieldDimension { x: 100, y: 100 }, usize::MAX);
    assert!(matches!(r, Err(MinefieldError::InsufficientSpace)));
}

#[test]
fn full_field_is_all_mines() {
    let f = field(2, 2, 4);
    for x in 0..2 {
        for y in 0..2 {
            assert!(is_mine(&f, x, y));
        }
    }
}

#[test]
fn new_fields_are_hidden_and_unflagged() {
    let f = field(6, 5, 8);
    for x in 0..6 {
        for y in 0..5 {
            let t = f.get_tile(x, y).unwrap();
            assert!(!t.is_visible);
            assert_eq!(t.flag_state, TileFlagState::Empty);
        }
    }
}

#[test]
fn get_tile_outside_field_is_none() {
    let f = field(3, 2, 1);
    assert!(f.get_tile(3, 0).is_none());
    assert!(f.get_tile(0, 2).is_none());
    assert!(f.get_tile(usize::MAX, usize::MAX).is_none());
    assert!(f.get_tile(2, 1).is_some());
}

#[test]
fn mine_placement_is_random() {
    // With one mine among a hundred tiles, fifty fields with the mine in the
    // same place would mean the positions were never shuffled.
    let mut seen_elsewhere = false;
    for _ in 0..50 {
        let f = field(10, 10, 1);
        if !is_mine(&f, 0, 0) {
            seen_elsewhere = true;
        }
    }
    assert!(seen_elsewhere);
}

#[test]
fn reveal_tile_returns_mine_state_and_is_irreversible() {
    let mut f = field(4, 4, 0);
    assert_eq!(f.reveal_tile(1, 2), Ok(TileMineState::Empty(0)));
    assert!(f.get_tile(1, 2).unwrap().is_visible);
    assert_eq!(f.reveal_tile(1, 2), Err(RevealError::AlreadyVisible));
    assert_eq!(f.cycle_flag(1, 2), Err(RevealError::AlreadyVisible));
    assert!(f.get_tile(1, 2).unwrap().is_visible);
    assert_eq!(f.get_tile(1, 2).unwrap().flag_state, TileFlagState::Empty);
}

#[test]
fn flags_cycle_and_block_reveal() {
    let mut f = field(3, 3, 2);
    assert_eq!(f.cycle_flag(0, 0), Ok(TileFlagState::Flagged));
    assert_eq!(f.reveal_tile(0, 0), Err(RevealError::Flagged));
    assert_eq!(f.cycle_flag(0, 0), Ok(TileFlagState::Suspicious));
    assert_eq!(f.reveal_tile(0, 0), Err(RevealError::Flagged));
    assert!(!f.get_tile(0, 0).unwrap().is_visible);
    assert_eq!(f.cycle_flag(0, 0), Ok(TileFlagState::Empty));
    assert!(f.reveal_tile(0, 0).is_ok());
    assert!(f.get_tile(0, 0).unwrap().is_visible);
}

#[test]
fn all_safe_revealed_tracks_hidden_safe_tiles() {
    let mut f = field(2, 1, 1);
    assert!(!f.all_safe_revealed());
    let (safe_x, mine_x) = if is_mine(&f, 0, 0) { (1, 0) } else { (0, 1) };
    assert_eq!(f.reveal_tile(safe_x, 0), Ok(TileMineState::Empty(1)));
    assert!(f.all_safe_revealed());
    assert_eq!(f.reveal_tile(mine_x, 0), Ok(TileMineState::Mine));
}

#[test]
fn new_unflagged_tile_is_hidden() {
    let t = Tile::new_unflagged(TileMineState::Empty(3));
    assert_eq!(t.flag_state, TileFlagState::Empty);
    assert_eq!(t.mine_state, TileMineState::Empty(3));
    assert!(!t.is_visible);
}

fn layout(f: &Minefield) -> Vec<Vec<TileMineState>> {
    let size = f.size();
    (0..size.y)
        .map(|y| (0..size.x).map(|x| f.get_tile(x, y).unwrap().mine_state).collect())
        .collect()
}

#[test]
fn from_order_places_mines_at_the_front_of_the_order() {
    let order = vec![(2, 1), (0, 0), (1, 0), (0, 1), (1, 1), (2, 0)];
    let size = FieldDimension { x: 3, y: 2 };
    let f = Minefield::new(size, 0).unwrap();
    assert_eq!(count_mines(&f), 0);
    let f = Minefield::from_order(size, 2, &order).unwrap();
    assert_eq!(f.total_mines(), 2);
    assert_eq!(
        layout(&f),
        vec![
            vec![TileMineState::Mine, TileMineState::Empty(2), TileMineState::Empty(1)],
            vec![TileMineState::Empty(1), TileMineState::Empty(2), TileMineState::Mine],
        ]
    );
    let again = Minefield::from_order(size, 2, &order).unwrap();
    assert_eq!(layout(&again), layout(&f));
    let none = Minefield::from_order(size, 0, &order).unwrap();
    assert_eq!(count_mines(&none), 0);
    let all = Minefield::from_order(size, 6, &order).unwrap();
    assert_eq!(count_mines(&all), 6);
    assert!(matches!(
        Minefield::from_order(size, 7, &order),
        Err(MinefieldError::InsufficientSpace)
    ));
}
