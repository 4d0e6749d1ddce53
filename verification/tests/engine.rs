use tetris::board::{CellState, Color, Game, Move, Position, Tetronimo, NUM_COLUMNS, NUM_ROWS};
use tetris::piece::{PieceState, RotateKind, Rotation, TetronimoKind};
use tetris::TickResult;

const KINDS: [TetronimoKind; 7] = [
    TetronimoKind::I,
    TetronimoKind::J,
    TetronimoKind::L,
    TetronimoKind::O,
    TetronimoKind::S,
    TetronimoKind::T,
    TetronimoKind::Z,
];

const ROTATIONS: [Rotation; 4] = [Rotation::R0, Rotation::R1, Rotation::R2, Rotation::R3];

fn spawn(kind: TetronimoKind) -> Tetronimo {
    Tetronimo {
        kind,
        pos: kind.start_position(),
        rotation: Rotation::R0,
    }
}

fn occupied_count(bitmap: &Vec<Vec<PieceState>>) -> usize {
    bitmap
        .iter()
        .map(|row| row.iter().filter(|c| matches!(c, PieceState::T)).count())
        .sum()
}

#[test]
fn every_shape_has_occupied_cells() {
    for kind in KINDS {
        for rot in ROTATIONS {
            let bitmap = kind.cells(&rot);
            assert!(
                occupied_count(&bitmap) > 0,
                "shape {:?}/{:?} is empty",
                kind,
                rot
            );
        }
    }
}

#[test]
fn every_shape_has_exactly_four_cells() {
    for kind in KINDS {
        for rot in ROTATIONS {
            let bitmap = kind.cells(&rot);
            assert_eq!(occupied_count(&bitmap), 4);
        }
    }
}

#[test]
fn i_shape_bitmap_is_the_standard_layout() {
    let bitmap = TetronimoKind::I.cells(&Rotation::R0);
    assert_eq!(bitmap.len(), 4);
    for j in 0..4 {
        assert!(matches!(bitmap[0][j], PieceState::O));
        assert!(matches!(bitmap[1][j], PieceState::T));
        assert!(matches!(bitmap[2][j], PieceState::O));
        assert!(matches!(bitmap[3][j], PieceState::O));
    }
}

#[test]
fn t_shape_bitmap_is_the_standard_layout() {
    let bitmap = TetronimoKind::T.cells(&Rotation::R0);
    assert_eq!(bitmap.len(), 3);
    let expect = [[false, true, false], [true, true, true], [false, false, false]];
    for i in 0..3 {
        for j in 0..3 {
            assert_eq!(matches!(bitmap[i][j], PieceState::T), expect[i][j]);
        }
    }
}

#[test]
fn rotation_cycle_wraps_both_ways() {
    for rot in ROTATIONS {
        let mut cw = rot;
        for _ in 0..4 {
            cw = cw.rotate(RotateKind::Clockwise);
        }
        assert_eq!(cw, rot);
        let there = rot.rotate(RotateKind::Clockwise);
        let back = there.rotate(RotateKind::Counterclockwise);
        assert_eq!(back, rot);
    }
}

#[test]
fn start_position_is_above_the_visible_window() {
    for kind in KINDS {
        assert_eq!(kind.start_position(), Position(20, 4));
    }
}

#[test]
fn piece_colors_are_fixed() {
    assert_eq!(TetronimoKind::I.color(), Color { r: 3, g: 65, b: 174 });
    assert_eq!(TetronimoKind::T.color(), Color { r: 128, g: 0, b: 128 });
}

#[test]
fn can_place_rejects_out_of_bounds_candidates() {
    let game = Game::new();
    // Occupied cells past the bottom edge.
    let low = Tetronimo {
        kind: TetronimoKind::I,
        pos: Position(39, 0),
        rotation: Rotation::R0,
    };
    assert!(!game.can_place(&low));
    // Occupied cells past the left edge.
    let left = Tetronimo {
        kind: TetronimoKind::O,
        pos: Position(20, -2),
        rotation: Rotation::R0,
    };
    assert!(!game.can_place(&left));
    // An anchor far off the grid in every direction.
    for pos in [Position(-40, 4), Position(80, 4), Position(20, -40), Position(20, 80)] {
        let far = Tetronimo {
            kind: TetronimoKind::T,
            pos,
            rotation: Rotation::R0,
        };
        assert!(!game.can_place(&far));
    }
}

#[test]
fn can_place_accepts_every_spawn_on_an_empty_board() {
    let game = Game::new();
    for kind in KINDS {
        assert!(game.can_place(&spawn(kind)), "spawn of {:?} rejected", kind);
    }
}

#[test]
fn can_place_is_pure() {
    let mut game = Game::new();
    game.place(&spawn(TetronimoKind::T));
    let candidate = Tetronimo {
        kind: TetronimoKind::T,
        pos: Position(21, 4),
        rotation: Rotation::R0,
    };
    let before: Vec<Vec<CellState>> = (0..NUM_ROWS)
        .map(|r| (0..NUM_COLUMNS).map(|c| game.cell_at(r, c)).collect())
        .collect();
    let first = game.can_place(&candidate);
    for _ in 0..10 {
        assert_eq!(game.can_place(&candidate), first);
    }
    let after: Vec<Vec<CellState>> = (0..NUM_ROWS)
        .map(|r| (0..NUM_COLUMNS).map(|c| game.cell_at(r, c)).collect())
        .collect();
    assert_eq!(before, after);
    assert_eq!(game.active_piece(), Some(spawn(TetronimoKind::T)));
}

#[test]
fn placed_o_piece_covers_its_interior_block() {
    let mut game = Game::new();
    let o = spawn(TetronimoKind::O);
    assert!(game.can_place(&o));
    game.place(&o);
    let color = TetronimoKind::O.color();
    for r in 0..NUM_ROWS {
        for c in 0..NUM_COLUMNS {
            let expect_active = (20..=21).contains(&r) && (5..=6).contains(&c);
            if expect_active {
                assert_eq!(game.cell_at(r, c), CellState::Active(color));
            } else {
                assert_eq!(game.cell_at(r, c), CellState::Empty);
            }
        }
    }
    assert_eq!(game.active_piece(), Some(o));
}

#[test]
fn place_erases_the_previous_footprint() {
    let mut game = Game::new();
    let o = spawn(TetronimoKind::O);
    game.place(&o);
    let lower = Tetronimo {
        pos: Position(25, 4),
        ..o
    };
    assert!(game.can_place(&lower));
    game.place(&lower);
    let color = TetronimoKind::O.color();
    for r in 0..NUM_ROWS {
        for c in 0..NUM_COLUMNS {
            let expect_active = (25..=26).contains(&r) && (5..=6).contains(&c);
            if expect_active {
                assert_eq!(game.cell_at(r, c), CellState::Active(color));
            } else {
                assert_eq!(game.cell_at(r, c), CellState::Empty, "stale cell at {},{}", r, c);
            }
        }
    }
}

#[test]
fn move_left_at_the_wall_is_rejected() {
    let mut game = Game::new();
    let piece = Tetronimo {
        kind: TetronimoKind::J,
        pos: Position(20, 0),
        rotation: Rotation::R0,
    };
    assert!(game.can_place(&piece));
    game.place(&piece);
    game.move_(Move::Left);
    assert_eq!(game.active_piece(), Some(piece));
    let color = TetronimoKind::J.color();
    assert_eq!(game.cell_at(20, 0), CellState::Active(color));
}

#[test]
fn move_right_shifts_the_piece_one_column() {
    let mut game = Game::new();
    let piece = spawn(TetronimoKind::L);
    game.place(&piece);
    game.move_(Move::Right);
    let expected = Tetronimo {
        pos: Position(20, 5),
        ..piece
    };
    assert_eq!(game.active_piece(), Some(expected));
}

#[test]
fn rotation_against_an_edge_is_rejected() {
    let mut game = Game::new();
    // A vertical I hugging the left wall: its horizontal rotation would
    // stick out past the left edge.
    let piece = Tetronimo {
        kind: TetronimoKind::I,
        pos: Position(20, -2),
        rotation: Rotation::R1,
    };
    assert!(game.can_place(&piece));
    game.place(&piece);
    game.rotate(RotateKind::Clockwise);
    assert_eq!(game.active_piece(), Some(piece));
}

#[test]
fn rotation_in_the_open_advances_the_orientation() {
    let mut game = Game::new();
    let piece = spawn(TetronimoKind::T);
    game.place(&piece);
    game.rotate(RotateKind::Clockwise);
    let expected = Tetronimo {
        rotation: Rotation::R1,
        ..piece
    };
    assert_eq!(game.active_piece(), Some(expected));
}

#[test]
fn freeze_settles_active_cells_in_place() {
    let mut game = Game::new();
    let o = spawn(TetronimoKind::O);
    game.place(&o);
    game.freeze_and_remove_completed_rows();
    let color = TetronimoKind::O.color();
    for r in 0..NUM_ROWS {
        for c in 0..NUM_COLUMNS {
            let expect_filled = (20..=21).contains(&r) && (5..=6).contains(&c);
            if expect_filled {
                assert_eq!(game.cell_at(r, c), CellState::Filled(color));
            } else {
                assert_eq!(game.cell_at(r, c), CellState::Empty);
            }
        }
    }
}

/// Fill row 39 at the given columns with settled cells, using pieces
/// placed and locked one by one.
fn place_and_freeze(game: &mut Game, tet: Tetronimo) {
    assert!(game.can_place(&tet));
    game.place(&tet);
    game.freeze_and_remove_completed_rows();
}

#[test]
fn completing_the_bottom_row_removes_it_and_shifts_rows_down() {
    let mut game = Game::new();
    // Two horizontal I pieces settle row 39, columns 0..8.
    place_and_freeze(
        &mut game,
        Tetronimo { kind: TetronimoKind::I, pos: Position(38, 0), rotation: Rotation::R0 },
    );
    place_and_freeze(
        &mut game,
        Tetronimo { kind: TetronimoKind::I, pos: Position(38, 4), rotation: Rotation::R0 },
    );
    // A vertical I settles column 8, rows 36..40.
    place_and_freeze(
        &mut game,
        Tetronimo { kind: TetronimoKind::I, pos: Position(36, 6), rotation: Rotation::R1 },
    );
    // Row 39 is now settled everywhere but column 9.
    for c in 0..9 {
        assert!(matches!(game.cell_at(39, c), CellState::Filled(_)));
    }
    assert_eq!(game.cell_at(39, 9), CellState::Empty);
    // Fill the last cell with a vertical I in column 9 and lock it.
    place_and_freeze(
        &mut game,
        Tetronimo { kind: TetronimoKind::I, pos: Position(36, 7), rotation: Rotation::R1 },
    );
    // Row 39 was removed; the rows above it slid down one row, so the
    // leftover cells of columns 8 and 9 (old rows 36..39) now sit in
    // rows 37..40, and the top row is empty.
    for c in 0..NUM_COLUMNS {
        assert_eq!(game.cell_at(0, c), CellState::Empty);
    }
    for r in [37, 38, 39] {
        assert!(matches!(game.cell_at(r, 8), CellState::Filled(_)));
        assert!(matches!(game.cell_at(r, 9), CellState::Filled(_)));
        for c in 0..8 {
            assert_eq!(game.cell_at(r, c), CellState::Empty);
        }
    }
    assert_eq!(game.cell_at(36, 8), CellState::Empty);
    assert_eq!(game.cell_at(36, 9), CellState::Empty);
}

#[test]
fn tick_spawns_then_falls_one_row_per_call() {
    let mut game = Game::new();
    assert!(game.active_piece().is_none());
    assert_eq!(game.tick(1), TickResult::Continue);
    let spawned = game.active_piece().expect("a piece spawns on the first tick");
    assert_eq!(spawned.pos, Position(20, 4));
    assert_eq!(spawned.rotation, Rotation::R0);
    assert_eq!(game.last_tick_time_ms(), 1);
    assert_eq!(game.tick(2), TickResult::Continue);
    let fallen = game.active_piece().expect("the piece keeps falling");
    assert_eq!(fallen.pos, Position(21, 4));
    assert_eq!(fallen.kind, spawned.kind);
    assert_eq!(game.last_tick_time_ms(), 2);
}

#[test]
fn blocked_spawn_region_makes_every_tick_a_game_over() {
    let mut game = Game::new();
    // Settle an O piece over the spawn point: every kind's spawn bitmap
    // overlaps rows 20..22, columns 5..7.
    place_and_freeze(&mut game, spawn(TetronimoKind::O));
    // The settled piece is still in hand; it cannot fall into its own
    // settled cells, so one tick locks it and empties the hand.
    assert_eq!(game.tick(0), TickResult::Continue);
    assert!(game.active_piece().is_none());
    for t in 1..6 {
        assert_eq!(game.tick(t), TickResult::GameOver);
        assert!(game.active_piece().is_none());
    }
}

#[test]
fn maybe_tick_waits_for_the_interval() {
    let mut game = Game::new();
    assert_eq!(game.tick_interval_time_ms(), 200);
    game.maybe_tick(200);
    assert!(game.active_piece().is_none());
    assert_eq!(game.last_tick_time_ms(), 0);
    game.maybe_tick(201);
    assert!(game.active_piece().is_some());
    assert_eq!(game.last_tick_time_ms(), 201);
    // Less than an interval later: nothing happens.
    let piece = game.active_piece();
    game.maybe_tick(300);
    assert_eq!(game.active_piece(), piece);
    // A full interval later: the piece falls one row.
    game.maybe_tick(402);
    let fallen = game.active_piece().expect("still falling");
    assert_eq!(fallen.pos, Position(21, 4));
}

#[test]
fn new_game_is_empty_and_idle() {
    let game = Game::new();
    assert!(game.active_piece().is_none());
    assert_eq!(game.last_tick_time_ms(), 0);
    for r in 0..NUM_ROWS {
        for c in 0..NUM_COLUMNS {
            assert_eq!(game.cell_at(r, c), CellState::Empty);
        }
    }
}

#[test]
fn soft_drop_locks_at_the_floor() {
    let mut game = Game::new();
    let piece = Tetronimo {
        kind: TetronimoKind::O,
        pos: Position(38, 4),
        rotation: Rotation::R0,
    };
    game.place(&piece);
    // The O bitmap's occupied rows are 0 and 1, so rows 38..40 are the
    // lowest fit; moving down is rejected.
    game.move_(Move::Down);
    assert_eq!(game.active_piece(), Some(piece));
    // A tick on a piece that cannot fall locks it and clears the hand.
    assert_eq!(game.tick(1), TickResult::Continue);
    assert!(game.active_piece().is_none());
    let color = TetronimoKind::O.color();
    assert_eq!(game.cell_at(38, 5), CellState::Filled(color));
    assert_eq!(game.cell_at(39, 6), CellState::Filled(color));
}
