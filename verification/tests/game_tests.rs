use blockfall::active::CurrentPiece;
use blockfall::board::{Board, Color, Tile};
use blockfall::game::{piece_board, Game, Intents, MAX_SIDE, PREVIEW_SIDE};
use blockfall::piece::{Piece, Pos, Rotation};

const ZEROS: [usize; 6] = [0, 0, 0, 0, 0, 0];
const FRAME: u64 = 16_000_000;
const FALL: u64 = 800_000_000;
const FREE: Tile = Tile { occupied: false, color: Color::White };

fn falling(kind: Piece, x: i32, y: i32, rotation: Rotation) -> CurrentPiece {
    CurrentPiece { piece: kind, position: Pos { x, y }, rotation, placed: false }
}

fn quiet() -> Intents {
    Intents::none()
}

fn occupied_cells(board: &Board) -> Vec<(usize, usize)> {
    let mut cells = Vec::new();
    for y in 0..board.height() {
        for x in 0..board.width() {
            if board.tile(x, y).unwrap().occupied {
                cells.push((x, y));
            }
        }
    }
    cells
}

/// A game whose bag deals I, L, J, Z, S, T, O, over and over.
fn game(width: usize, height: usize) -> Game {
    Game::from_picks(width, height, &ZEROS)
}

#[test]
fn a_new_game() {
    let game = game(15, 20);
    assert_eq!(game.piece(), falling(Piece::I, 7, 17, Rotation::R0));
    assert_eq!(game.next_piece(), Piece::L);
    assert_eq!(game.score(), 0);
    assert_eq!(game.level(), 0);
    assert_eq!(game.board().width(), 15);
    assert_eq!(game.board().height(), 20);
    assert!(occupied_cells(game.board()).is_empty());
    assert_eq!(game.clock().period(), 800_000_000);
    assert_eq!(game.clock().elapsed(), 0);
    assert!(!game.is_soft_dropping());
    assert!(game.can_tick());
}

#[test]
fn a_new_game_with_a_shuffled_bag() {
    for _ in 0..20 {
        let game = Game::new(15, 20);
        assert_eq!(game.piece().position, Pos { x: 7, y: 17 });
        assert_eq!(game.piece().rotation, Rotation::R0);
        assert!(!game.piece().placed);
        assert_ne!(game.piece().piece, game.next_piece());
        assert_eq!(game.score(), 0);
        assert_eq!(game.level(), 0);
    }
}

#[test]
fn no_intents_no_time_nothing_moves() {
    let mut game = game(15, 20);
    for _ in 0..10 {
        game.tick_with(&quiet(), 0, &ZEROS);
    }
    assert_eq!(game.piece(), falling(Piece::I, 7, 17, Rotation::R0));
    assert_eq!(game.next_piece(), Piece::L);
    assert_eq!(game.clock().elapsed(), 0);
}

#[test]
fn the_piece_falls_one_row_each_period() {
    let mut game = game(15, 20);
    for _ in 0..49 {
        game.tick_with(&quiet(), FRAME, &ZEROS);
    }
    assert_eq!(game.piece().position, Pos { x: 7, y: 17 });
    assert_eq!(game.clock().elapsed(), 784_000_000);
    game.tick_with(&quiet(), FRAME, &ZEROS);
    assert_eq!(game.piece().position, Pos { x: 7, y: 16 });
    assert_eq!(game.clock().elapsed(), 0);
    game.tick_with(&quiet(), 3 * FALL + 5, &ZEROS);
    assert_eq!(game.piece().position, Pos { x: 7, y: 15 });
    assert_eq!(game.clock().elapsed(), 5);
}

#[test]
fn moves_to_the_left_and_to_the_right() {
    let mut game = game(15, 20);
    game.tick_with(&Intents { move_left: true, ..quiet() }, 0, &ZEROS);
    assert_eq!(game.piece(), falling(Piece::I, 6, 17, Rotation::R0));
    game.tick_with(&Intents { move_right: true, ..quiet() }, 0, &ZEROS);
    game.tick_with(&Intents { move_right: true, ..quiet() }, 0, &ZEROS);
    assert_eq!(game.piece(), falling(Piece::I, 8, 17, Rotation::R0));
    game.tick_with(&Intents { move_left: true, move_right: true, ..quiet() }, 0, &ZEROS);
    assert_eq!(game.piece(), falling(Piece::I, 8, 17, Rotation::R0));
}

#[test]
fn turns_keep_the_piece_centered() {
    let mut game = game(15, 20);
    game.tick_with(&Intents { rotate_cw: true, ..quiet() }, 0, &ZEROS);
    assert_eq!(game.piece(), falling(Piece::I, 8, 17, Rotation::R1));
    game.tick_with(&Intents { rotate_cw: true, ..quiet() }, 0, &ZEROS);
    assert_eq!(game.piece(), falling(Piece::I, 7, 17, Rotation::R2));
    game.tick_with(&Intents { rotate_ccw: true, ..quiet() }, 0, &ZEROS);
    assert_eq!(game.piece(), falling(Piece::I, 8, 17, Rotation::R1));
    game.tick_with(&Intents { rotate_cw: true, rotate_ccw: true, ..quiet() }, 0, &ZEROS);
    assert_eq!(game.piece(), falling(Piece::I, 8, 17, Rotation::R1));
    game.tick_with(&Intents { rotate_ccw: true, move_left: true, ..quiet() }, 0, &ZEROS);
    assert_eq!(game.piece(), falling(Piece::I, 6, 17, Rotation::R0));
}

#[test]
fn the_walls_stop_the_piece_and_do_not_land_it() {
    let mut game = game(15, 20);
    for _ in 0..10 {
        game.tick_with(&Intents { move_right: true, ..quiet() }, 0, &ZEROS);
    }
    assert_eq!(game.piece(), falling(Piece::I, 11, 17, Rotation::R0));
    for _ in 0..20 {
        game.tick_with(&Intents { move_left: true, ..quiet() }, 0, &ZEROS);
    }
    assert_eq!(game.piece(), falling(Piece::I, 0, 17, Rotation::R0));
    assert!(occupied_cells(game.board()).is_empty());
}

#[test]
fn a_turn_at_the_right_wall_is_pushed_back_inside() {
    let mut game = game(15, 20);
    game.tick_with(&Intents { rotate_cw: true, ..quiet() }, 0, &ZEROS);
    for _ in 0..10 {
        game.tick_with(&Intents { move_right: true, ..quiet() }, 0, &ZEROS);
    }
    assert_eq!(game.piece(), falling(Piece::I, 14, 17, Rotation::R1));
    game.tick_with(&Intents { rotate_cw: true, ..quiet() }, 0, &ZEROS);
    assert_eq!(game.piece(), falling(Piece::I, 11, 17, Rotation::R2));
}

#[test]
fn a_hard_drop_reaches_the_floor_and_gravity_lands_the_piece() {
    let mut game = game(15, 20);
    game.tick_with(&Intents { hard_drop: true, ..quiet() }, 0, &ZEROS);
    assert_eq!(game.piece(), falling(Piece::I, 7, 0, Rotation::R0));
    assert!(occupied_cells(game.board()).is_empty());
    game.tick_with(&quiet(), FALL - 1, &ZEROS);
    assert_eq!(game.piece(), falling(Piece::I, 7, 0, Rotation::R0));
    game.tick_with(&quiet(), 1, &ZEROS);
    assert_eq!(occupied_cells(game.board()), vec![(7, 0), (8, 0), (9, 0), (10, 0)]);
    assert_eq!(game.board().tile(7, 0), Some(Tile { occupied: true, color: Color::Cyan }));
    assert_eq!(game.piece(), falling(Piece::L, 7, 17, Rotation::R0));
    assert_eq!(game.next_piece(), Piece::J);
    assert_eq!(game.score(), 0);
}

#[test]
fn a_move_into_the_stack_is_undone_and_lands_the_piece() {
    let mut game = game(15, 20);
    game.tick_with(&Intents { force_land: true, ..quiet() }, 0, &ZEROS);
    assert_eq!(occupied_cells(game.board()), vec![(0, 0), (1, 0), (2, 0), (3, 0)]);
    assert_eq!(game.piece(), falling(Piece::L, 7, 17, Rotation::R0));
    game.tick_with(&Intents { hard_drop: true, ..quiet() }, 0, &ZEROS);
    assert_eq!(game.piece(), falling(Piece::L, 7, 0, Rotation::R0));
    for _ in 0..3 {
        game.tick_with(&Intents { move_left: true, ..quiet() }, 0, &ZEROS);
    }
    assert_eq!(game.piece(), falling(Piece::L, 4, 0, Rotation::R0));
    assert_eq!(occupied_cells(game.board()).len(), 4);
    game.tick_with(&Intents { move_left: true, ..quiet() }, 0, &ZEROS);
    assert_eq!(
        occupied_cells(game.board()),
        vec![(0, 0), (1, 0), (2, 0), (3, 0), (4, 0), (5, 0), (6, 0), (4, 1)]
    );
    assert_eq!(game.board().tile(4, 1), Some(Tile { occupied: true, color: Color::Orange }));
    assert_eq!(game.piece(), falling(Piece::J, 7, 17, Rotation::R0));
    assert_eq!(game.next_piece(), Piece::Z);
}

#[test]
fn a_turn_into_the_stack_is_undone_with_its_move() {
    let mut game = game(15, 20);
    game.tick_with(&Intents { force_land: true, ..quiet() }, 0, &ZEROS);
    game.tick_with(&Intents { hard_drop: true, ..quiet() }, 0, &ZEROS);
    for _ in 0..3 {
        game.tick_with(&Intents { move_left: true, ..quiet() }, 0, &ZEROS);
    }
    assert_eq!(game.piece(), falling(Piece::L, 4, 0, Rotation::R0));
    // Turned and moved left, the piece would cover (3, 0): both are undone.
    game.tick_with(&Intents { rotate_cw: true, move_left: true, ..quiet() }, 0, &ZEROS);
    assert_eq!(
        occupied_cells(game.board()),
        vec![(0, 0), (1, 0), (2, 0), (3, 0), (4, 0), (5, 0), (6, 0), (4, 1)]
    );
    assert_eq!(game.piece(), falling(Piece::J, 7, 17, Rotation::R0));
}

#[test]
fn a_forced_landing_puts_the_piece_in_the_corner() {
    let mut game = game(15, 20);
    game.tick_with(&Intents { rotate_cw: true, force_land: true, ..quiet() }, 0, &ZEROS);
    assert_eq!(occupied_cells(game.board()), vec![(0, 0), (0, 1), (0, 2), (0, 3)]);
    assert_eq!(game.piece(), falling(Piece::L, 7, 17, Rotation::R0));
}

#[test]
fn a_forced_landing_into_the_stack_lands_the_piece_where_it_was() {
    let mut game = game(15, 20);
    game.tick_with(&Intents { force_land: true, ..quiet() }, 0, &ZEROS);
    game.tick_with(&Intents { force_land: true, ..quiet() }, 0, &ZEROS);
    let mut cells = vec![(0, 0), (1, 0), (2, 0), (3, 0), (8, 17), (9, 17), (7, 17), (7, 18)];
    cells.sort_by_key(|c| (c.1, c.0));
    assert_eq!(occupied_cells(game.board()), cells);
    assert_eq!(game.piece(), falling(Piece::J, 7, 17, Rotation::R0));
}

#[test]
fn a_full_row_is_cleared_and_scored() {
    let mut game = game(4, 10);
    assert_eq!(game.piece(), falling(Piece::I, 2, 7, Rotation::R0));
    game.tick_with(&quiet(), 0, &ZEROS);
    assert_eq!(game.piece(), falling(Piece::I, 0, 7, Rotation::R0));
    game.tick_with(&Intents { hard_drop: true, ..quiet() }, 0, &ZEROS);
    assert_eq!(game.piece(), falling(Piece::I, 0, 0, Rotation::R0));
    assert_eq!(game.score(), 0);
    game.tick_with(&quiet(), FALL, &ZEROS);
    assert!(occupied_cells(game.board()).is_empty());
    assert_eq!(game.board().height(), 10);
    assert_eq!(game.score(), 40);
    assert_eq!(game.level(), 0);
    assert_eq!(game.piece(), falling(Piece::L, 2, 7, Rotation::R0));
    for y in 0..10 {
        for x in 0..4 {
            assert_eq!(game.board().tile(x, y), Some(FREE));
        }
    }
}

#[test]
fn rows_above_a_cleared_row_move_down() {
    let mut game = game(4, 10);
    // I upright in column 0, then L, J and Z are parked, then S fills row 0.
    game.tick_with(&Intents { rotate_cw: true, force_land: true, ..quiet() }, 0, &ZEROS);
    assert_eq!(occupied_cells(game.board()), vec![(0, 0), (0, 1), (0, 2), (0, 3)]);
    assert_eq!(game.piece().piece, Piece::L);
    game.tick_with(&quiet(), 0, &ZEROS);
    assert_eq!(game.piece(), falling(Piece::L, 1, 7, Rotation::R0));
    game.tick_with(&Intents { hard_drop: true, ..quiet() }, 0, &ZEROS);
    assert_eq!(game.piece(), falling(Piece::L, 1, 0, Rotation::R0));
    game.tick_with(&quiet(), FALL, &ZEROS);
    assert_eq!(game.score(), 40);
    assert_eq!(occupied_cells(game.board()), vec![(0, 0), (1, 0), (0, 1), (0, 2)]);
    assert_eq!(game.board().tile(1, 0), Some(Tile { occupied: true, color: Color::Orange }));
    assert_eq!(game.board().tile(0, 2), Some(Tile { occupied: true, color: Color::Cyan }));
    assert_eq!(game.board().tile(0, 3), Some(FREE));
    assert_eq!(game.piece(), falling(Piece::J, 2, 7, Rotation::R0));
}

#[test]
fn a_reset_starts_over_with_the_next_piece() {
    let mut game = game(4, 10);
    game.tick_with(&quiet(), 0, &ZEROS);
    game.tick_with(&Intents { hard_drop: true, ..quiet() }, 0, &ZEROS);
    game.tick_with(&quiet(), FALL, &ZEROS);
    assert_eq!(game.score(), 40);
    game.tick_with(&Intents { rotate_cw: true, force_land: true, ..quiet() }, 0, &ZEROS);
    assert_eq!(occupied_cells(game.board()).len(), 4);
    assert_eq!(game.piece().piece, Piece::J);
    game.tick_with(&Intents { reset: true, ..quiet() }, 0, &ZEROS);
    assert!(occupied_cells(game.board()).is_empty());
    assert_eq!(game.score(), 0);
    assert_eq!(game.level(), 0);
    assert_eq!(game.piece(), falling(Piece::Z, 2, 7, Rotation::R0));
    assert_eq!(game.next_piece(), Piece::S);
    assert_eq!(game.board().tile(1, 0), Some(Tile { occupied: false, color: Color::Orange }));
}

#[test]
fn a_reset_wins_over_the_moves_of_its_tick() {
    let mut game = game(15, 20);
    let all = Intents {
        rotate_cw: true,
        rotate_ccw: false,
        move_left: true,
        move_right: false,
        soft_drop_start: false,
        soft_drop_end: false,
        hard_drop: true,
        force_land: true,
        reset: true,
    };
    game.tick_with(&all, 0, &ZEROS);
    assert!(occupied_cells(game.board()).is_empty());
    assert_eq!(game.piece(), falling(Piece::L, 7, 17, Rotation::R0));
    assert_eq!(game.next_piece(), Piece::J);
}

#[test]
fn speeding_up_shortens_the_period_and_keeps_the_time_run() {
    let mut game = game(15, 20);
    game.tick_with(&quiet(), 90_000_000, &ZEROS);
    assert_eq!(game.clock().period(), 800_000_000);
    assert_eq!(game.clock().elapsed(), 90_000_000);
    game.tick_with(&Intents { soft_drop_start: true, ..quiet() }, 9_000_000, &ZEROS);
    assert!(game.is_soft_dropping());
    assert_eq!(game.clock().period(), 100_000_000);
    assert_eq!(game.clock().elapsed(), 99_000_000);
    assert_eq!(game.piece().position, Pos { x: 7, y: 17 });
    game.tick_with(&quiet(), 1_000_000, &ZEROS);
    assert_eq!(game.piece().position, Pos { x: 7, y: 16 });
    assert_eq!(game.clock().elapsed(), 0);
    game.tick_with(&quiet(), 60_000_000, &ZEROS);
    assert!(game.is_soft_dropping());
    game.tick_with(&Intents { soft_drop_end: true, ..quiet() }, 60_000_000, &ZEROS);
    assert!(!game.is_soft_dropping());
    assert_eq!(game.clock().period(), 800_000_000);
    assert_eq!(game.clock().elapsed(), 120_000_000);
    assert_eq!(game.piece().position, Pos { x: 7, y: 16 });
    game.tick_with(&Intents { soft_drop_start: true, soft_drop_end: true, ..quiet() }, 0, &ZEROS);
    assert!(game.is_soft_dropping());
    assert_eq!(game.clock().period(), 100_000_000);
    assert_eq!(game.clock().elapsed(), 20_000_000);
    assert_eq!(game.piece().position, Pos { x: 7, y: 15 });
}

#[test]
fn the_bag_is_filled_again_after_seven_pieces() {
    let mut game = Game::from_picks(15, 20, &[1, 2, 3, 4, 5, 6]);
    let mut kinds = vec![game.piece().piece];
    for _ in 0..15 {
        game.tick_with(&Intents { reset: true, ..quiet() }, 0, &ZEROS);
        kinds.push(game.piece().piece);
    }
    let expected = [
        Piece::L,
        Piece::J,
        Piece::Z,
        Piece::S,
        Piece::T,
        Piece::O,
        Piece::I,
        Piece::I,
        Piece::L,
        Piece::J,
        Piece::Z,
        Piece::S,
        Piece::T,
        Piece::O,
        Piece::I,
        Piece::L,
    ];
    assert_eq!(kinds, expected.to_vec());
}

#[test]
fn with_a_shuffled_bag_every_seven_pieces_hold_every_kind() {
    let mut game = Game::new(15, 20);
    let mut kinds = vec![game.piece().piece];
    for _ in 0..34 {
        game.tick(&Intents { reset: true, ..quiet() }, 0);
        kinds.push(game.piece().piece);
    }
    for batch in kinds.chunks(7) {
        for kind in [Piece::I, Piece::O, Piece::T, Piece::S, Piece::Z, Piece::J, Piece::L] {
            assert_eq!(batch.iter().filter(|k| **k == kind).count(), 1);
        }
    }
}

#[test]
fn on_a_board_of_one_column_every_piece_lands_at_once() {
    let mut game = game(1, 8);
    assert_eq!(game.piece(), falling(Piece::I, 0, 5, Rotation::R0));
    // What each piece leaves in the column: I and T one tile, the others two.
    let expected = [
        (Piece::I, 40, 0),
        (Piece::L, 140, 0),
        (Piece::J, 240, 0),
        (Piece::Z, 340, 0),
        (Piece::S, 440, 0),
        (Piece::T, 480, 1),
        (Piece::O, 680, 1),
        (Piece::I, 760, 1),
    ];
    for (kind, score, level) in expected {
        assert_eq!(game.piece().piece, kind);
        game.tick_with(&quiet(), 0, &ZEROS);
        assert_eq!(game.score(), score);
        assert_eq!(game.level(), level);
        assert!(occupied_cells(game.board()).is_empty());
        assert_eq!(game.board().height(), 8);
    }
}

#[test]
fn a_higher_level_shortens_the_period_at_the_next_tick() {
    let mut game = game(1, 8);
    for _ in 0..6 {
        assert_eq!(game.clock().period(), 800_000_000);
        game.tick_with(&quiet(), 1_000, &ZEROS);
    }
    assert_eq!(game.level(), 1);
    assert_eq!(game.clock().period(), 800_000_000);
    assert_eq!(game.clock().elapsed(), 6_000);
    game.tick_with(&quiet(), 1_000, &ZEROS);
    assert_eq!(game.clock().period(), 799_167_658);
    assert_eq!(game.clock().elapsed(), 7_000);
}

#[test]
fn a_piece_that_cannot_enter_lands_where_it_enters() {
    let mut game = game(5, 4);
    game.tick_with(&quiet(), FALL, &ZEROS);
    assert_eq!(game.piece(), falling(Piece::I, 1, 0, Rotation::R0));
    game.tick_with(&quiet(), FALL, &ZEROS);
    assert_eq!(occupied_cells(game.board()), vec![(1, 0), (2, 0), (3, 0), (4, 0)]);
    assert_eq!(game.piece(), falling(Piece::L, 2, 1, Rotation::R0));
    game.tick_with(&quiet(), 0, &ZEROS);
    assert_eq!(game.piece(), falling(Piece::L, 2, 1, Rotation::R0));
    game.tick_with(&quiet(), FALL, &ZEROS);
    assert_eq!(
        occupied_cells(game.board()),
        vec![(1, 0), (2, 0), (3, 0), (4, 0), (2, 1), (3, 1), (4, 1), (2, 2)]
    );
    assert_eq!(game.piece(), falling(Piece::J, 2, 1, Rotation::R0));
    assert!(game.board().is_obstructed(Piece::J, Pos { x: 2, y: 1 }, Rotation::R0));
    game.tick_with(&quiet(), 0, &ZEROS);
    assert_eq!(
        occupied_cells(game.board()),
        vec![(1, 0), (2, 0), (3, 0), (4, 0), (2, 1), (3, 1), (4, 1), (2, 2), (3, 2), (4, 2)]
    );
    assert_eq!(game.board().tile(2, 1), Some(Tile { occupied: true, color: Color::Blue }));
    assert_eq!(game.board().tile(3, 1), Some(Tile { occupied: true, color: Color::Orange }));
    assert_eq!(game.piece(), falling(Piece::Z, 2, 1, Rotation::R0));
    assert_eq!(game.score(), 0);
}

#[test]
fn the_next_piece_is_shown_on_a_grid_of_its_own() {
    let game = game(15, 20);
    assert_eq!(game.next_piece(), Piece::L);
    let shown = game.preview();
    assert_eq!(shown.width(), PREVIEW_SIDE);
    assert_eq!(shown.height(), PREVIEW_SIDE);
    assert_eq!(occupied_cells(&shown), vec![(0, 0), (1, 0), (2, 0), (0, 1)]);
    assert_eq!(shown.tile(0, 1), Some(Tile { occupied: true, color: Color::White }));
}

#[test]
fn any_piece_fits_the_grid_of_its_own() {
    for kind in [Piece::I, Piece::O, Piece::T, Piece::S, Piece::Z, Piece::J, Piece::L] {
        for rotation in [Rotation::R0, Rotation::R1, Rotation::R2, Rotation::R3] {
            let shown = piece_board(kind, rotation, Color::Green);
            assert_eq!(occupied_cells(&shown).len(), 4);
        }
    }
    let shown = piece_board(Piece::I, Rotation::R1, Color::Cyan);
    assert_eq!(occupied_cells(&shown), vec![(0, 0), (0, 1), (0, 2), (0, 3)]);
    assert_eq!(shown.tile(0, 3), Some(Tile { occupied: true, color: Color::Cyan }));
}

#[test]
fn the_largest_playfield_a_game_may_have() {
    assert_eq!(MAX_SIDE, i32::MAX as usize - 3);
    let game = Game::from_picks(MAX_SIDE, 0, &ZEROS);
    assert_eq!(game.piece().position, Pos { x: (MAX_SIDE / 2) as i32, y: -3 });
    let mut game = Game::from_picks(0, 0, &ZEROS);
    assert_eq!(game.piece().position, Pos { x: 0, y: -3 });
    game.tick_with(&quiet(), 0, &ZEROS);
    assert_eq!(game.piece(), falling(Piece::L, 0, -3, Rotation::R0));
    assert_eq!(game.score(), 0);
}

#[test]
fn between_ticks_the_game_is_at_rest() {
    let mut game = Game::from_picks(6, 9, &[1, 0, 3, 2, 0, 4]);
    let mut seed: u64 = 0x2545_f491_4f6c_dd1d;
    let mut cleared_something = false;
    for _ in 0..4000 {
        seed = seed.wrapping_mul(6364136223846793005).wrapping_add(1442695040888963407);
        let bits = seed >> 33;
        let intents = Intents {
            rotate_cw: bits & 1 != 0,
            rotate_ccw: bits & 2 != 0,
            move_left: bits & 4 != 0,
            move_right: bits & 8 != 0,
            soft_drop_start: bits & 16 != 0,
            soft_drop_end: bits & 32 != 0,
            hard_drop: bits & 64 != 0,
            force_land: bits & 0x380 == 0x380,
            reset: bits & 0xfc00 == 0xfc00,
        };
        let before = game.score();
        assert!(game.can_tick());
        game.tick_with(&intents, 70_000_000, &[(bits % 2) as usize, 1, 2, 0, 4, 3]);
        let piece = game.piece();
        assert!(!piece.placed);
        let spawned = CurrentPiece::new(piece.piece, 6, 9);
        assert!(
            piece == spawned || !game.board().is_obstructed(piece.piece, piece.position, piece.rotation)
        );
        for y in 0..9 {
            assert!((0..6).any(|x| !game.board().tile(x, y).unwrap().occupied));
        }
        assert_eq!(game.board().width(), 6);
        assert_eq!(game.board().height(), 9);
        assert!(game.level() <= 29);
        if !intents.reset {
            assert!(game.score() >= before);
            cleared_something = cleared_something || game.score() > before;
        }
        assert_eq!(game.progress().score(), game.score());
        assert_eq!(game.progress().level(), game.level());
    }
    assert!(cleared_something);
}
