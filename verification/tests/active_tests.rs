use blockfall::active::CurrentPiece;
use blockfall::board::{Board, Color};
use blockfall::piece::{Direction, Piece, Pos, Rotation};

const KINDS: [Piece; 7] = [Piece::I, Piece::O, Piece::T, Piece::S, Piece::Z, Piece::J, Piece::L];

fn piece(kind: Piece, x: i32, y: i32, rotation: Rotation) -> CurrentPiece {
    CurrentPiece { piece: kind, position: Pos { x, y }, rotation, placed: false }
}

fn fill_row(board: &mut Board, y: usize) {
    for x in 0..board.width() {
        assert!(board.occupy(x, y));
    }
}

#[test]
fn a_piece_enters_in_the_middle_three_rows_below_the_top() {
    for kind in KINDS {
        let spawned = CurrentPiece::new(kind, 15, 20);
        assert_eq!(spawned, piece(kind, 7, 17, Rotation::R0));
    }
    assert_eq!(CurrentPiece::new(Piece::T, 10, 24).position, Pos { x: 5, y: 21 });
    assert_eq!(CurrentPiece::new(Piece::T, 4, 4).position, Pos { x: 2, y: 1 });
    assert_eq!(CurrentPiece::new(Piece::T, 0, 0).position, Pos { x: 0, y: -3 });
    assert_eq!(
        CurrentPiece::new(Piece::T, i32::MAX as usize, i32::MAX as usize).position,
        Pos { x: i32::MAX / 2, y: i32::MAX - 3 }
    );
}

#[test]
fn the_paint_of_each_kind() {
    let expected = [
        (Piece::I, Color::Cyan),
        (Piece::O, Color::Yellow),
        (Piece::T, Color::Pink),
        (Piece::S, Color::Green),
        (Piece::Z, Color::Red),
        (Piece::J, Color::Blue),
        (Piece::L, Color::Orange),
    ];
    for (kind, color) in expected {
        assert_eq!(piece(kind, 0, 0, Rotation::R0).get_color(), color);
    }
}

#[test]
fn width_follows_the_rotation() {
    assert_eq!(piece(Piece::I, 0, 0, Rotation::R0).width(), 4);
    assert_eq!(piece(Piece::I, 0, 0, Rotation::R1).width(), 1);
    assert_eq!(piece(Piece::J, 0, 0, Rotation::R0).width(), 3);
    assert_eq!(piece(Piece::J, 0, 0, Rotation::R1).width(), 2);
    assert_eq!(piece(Piece::O, 9, 9, Rotation::R3).width(), 2);
}

#[test]
fn standing_the_i_piece_up_moves_it_one_column_right() {
    for direction in [Direction::Cw, Direction::Ccw] {
        let mut p = piece(Piece::I, 7, 17, Rotation::R0);
        p.rotate(direction);
        assert_eq!(p.position, Pos { x: 8, y: 17 });
        assert!(!p.placed);
        let mut p = piece(Piece::I, -5, 3, Rotation::R2);
        p.rotate(direction);
        assert_eq!(p.position, Pos { x: -4, y: 3 });
    }
    let mut p = piece(Piece::I, 7, 17, Rotation::R0);
    p.rotate(Direction::Cw);
    assert_eq!(p.rotation, Rotation::R1);
    let mut p = piece(Piece::I, 7, 17, Rotation::R0);
    p.rotate(Direction::Ccw);
    assert_eq!(p.rotation, Rotation::R3);
}

#[test]
fn laying_the_i_piece_down_moves_it_one_column_left() {
    for direction in [Direction::Cw, Direction::Ccw] {
        let mut p = piece(Piece::I, 8, 17, Rotation::R1);
        p.rotate(direction);
        assert_eq!(p.position, Pos { x: 7, y: 17 });
        let mut p = piece(Piece::I, 0, 0, Rotation::R3);
        p.rotate(direction);
        assert_eq!(p.position, Pos { x: -1, y: 0 });
    }
}

#[test]
fn a_change_of_width_by_one_moves_nothing() {
    for kind in [Piece::T, Piece::S, Piece::Z, Piece::J, Piece::L, Piece::O] {
        for rotation in [Rotation::R0, Rotation::R1, Rotation::R2, Rotation::R3] {
            for direction in [Direction::Cw, Direction::Ccw] {
                let mut p = piece(kind, 5, 5, rotation);
                p.rotate(direction);
                assert_eq!(p.position, Pos { x: 5, y: 5 });
                assert_eq!(p.rotation, rotation.turned(direction));
                assert_eq!(p.piece, kind);
            }
        }
    }
}

#[test]
fn four_quarter_turns_bring_the_piece_back() {
    for kind in KINDS {
        for direction in [Direction::Cw, Direction::Ccw] {
            let start = piece(kind, 6, 9, Rotation::R0);
            let mut p = start;
            for _ in 0..4 {
                p.rotate(direction);
            }
            assert_eq!(p, start);
        }
    }
}

#[test]
fn translate_moves_sideways_only() {
    let mut p = piece(Piece::S, 4, 9, Rotation::R1);
    p.translate(1);
    assert_eq!(p, piece(Piece::S, 5, 9, Rotation::R1));
    p.translate(-1);
    p.translate(-1);
    assert_eq!(p, piece(Piece::S, 3, 9, Rotation::R1));
    p.translate(-10);
    assert_eq!(p, piece(Piece::S, -7, 9, Rotation::R1));
    p.translate(0);
    assert_eq!(p, piece(Piece::S, -7, 9, Rotation::R1));
}

#[test]
fn a_hard_drop_ends_on_the_floor_of_an_empty_board() {
    let board = Board::new(15, 20);
    for kind in KINDS {
        let mut p = CurrentPiece::new(kind, 15, 20);
        p.hard_drop(&board);
        assert_eq!(p, piece(kind, 7, 0, Rotation::R0));
    }
}

#[test]
fn a_hard_drop_ends_on_the_stack() {
    let mut board = Board::new(15, 20);
    board.stamp(Piece::O, Pos { x: 8, y: 0 }, Rotation::R0, Color::Yellow);
    let mut p = piece(Piece::I, 7, 17, Rotation::R0);
    p.hard_drop(&board);
    assert_eq!(p, piece(Piece::I, 7, 2, Rotation::R0));
    let mut p = piece(Piece::I, 7, 17, Rotation::R1);
    p.hard_drop(&board);
    assert_eq!(p, piece(Piece::I, 7, 0, Rotation::R1));
    let mut p = piece(Piece::T, 7, 17, Rotation::R0);
    p.hard_drop(&board);
    assert_eq!(p, piece(Piece::T, 7, 2, Rotation::R0));
    let mut p = piece(Piece::T, 9, 17, Rotation::R2);
    p.hard_drop(&board);
    assert_eq!(p, piece(Piece::T, 9, 2, Rotation::R2));
    let mut p = piece(Piece::T, 10, 17, Rotation::R2);
    p.hard_drop(&board);
    assert_eq!(p, piece(Piece::T, 10, 0, Rotation::R2));
}

#[test]
fn a_hard_drop_does_not_land_the_piece() {
    let board = Board::new(15, 20);
    let mut p = piece(Piece::L, 3, 12, Rotation::R2);
    p.hard_drop(&board);
    assert!(!p.placed);
    assert_eq!(p.position, Pos { x: 3, y: 0 });
    p.hard_drop(&board);
    assert_eq!(p.position, Pos { x: 3, y: 0 });
}

#[test]
fn a_hard_drop_from_above_the_board() {
    let board = Board::new(15, 20);
    let mut p = piece(Piece::O, 3, 500, Rotation::R0);
    p.hard_drop(&board);
    assert_eq!(p.position, Pos { x: 3, y: 0 });
}

#[test]
fn a_piece_beyond_a_wall_does_not_drop() {
    let board = Board::new(15, 20);
    let mut p = piece(Piece::I, 13, 17, Rotation::R0);
    p.hard_drop(&board);
    assert_eq!(p, piece(Piece::I, 13, 17, Rotation::R0));
    let mut p = piece(Piece::I, -1, 17, Rotation::R0);
    p.hard_drop(&board);
    assert_eq!(p, piece(Piece::I, -1, 17, Rotation::R0));
    let mut p = piece(Piece::I, 3, i32::MIN, Rotation::R0);
    p.hard_drop(&board);
    assert_eq!(p, piece(Piece::I, 3, i32::MIN, Rotation::R0));
}

#[test]
fn a_hard_drop_looks_at_the_row_below_only() {
    let mut board = Board::new(15, 20);
    assert!(board.occupy(7, 10));
    let mut p = piece(Piece::O, 7, 10, Rotation::R0);
    p.hard_drop(&board);
    assert_eq!(p.position, Pos { x: 7, y: 10 });
    let mut p = piece(Piece::O, 7, 12, Rotation::R0);
    p.hard_drop(&board);
    assert_eq!(p.position, Pos { x: 7, y: 11 });
    let mut p = piece(Piece::I, 4, 11, Rotation::R0);
    p.hard_drop(&board);
    assert_eq!(p.position, Pos { x: 4, y: 11 });
    let mut p = piece(Piece::I, 3, 11, Rotation::R0);
    p.hard_drop(&board);
    assert_eq!(p.position, Pos { x: 3, y: 0 });
}

#[test]
fn soft_land_puts_the_piece_in_the_corner_and_lands_it() {
    let mut p = piece(Piece::Z, 9, 13, Rotation::R3);
    p.soft_land();
    assert_eq!(
        p,
        CurrentPiece {
            piece: Piece::Z,
            position: Pos { x: 0, y: 0 },
            rotation: Rotation::R3,
            placed: true
        }
    );
}

#[test]
fn clamp_brings_the_piece_between_the_walls() {
    let mut p = piece(Piece::I, -3, 5, Rotation::R0);
    p.clamp(15);
    assert_eq!(p, piece(Piece::I, 0, 5, Rotation::R0));
    let mut p = piece(Piece::I, 13, 5, Rotation::R0);
    p.clamp(15);
    assert_eq!(p, piece(Piece::I, 11, 5, Rotation::R0));
    let mut p = piece(Piece::I, 11, 5, Rotation::R0);
    p.clamp(15);
    assert_eq!(p, piece(Piece::I, 11, 5, Rotation::R0));
    let mut p = piece(Piece::I, 15, 5, Rotation::R1);
    p.clamp(15);
    assert_eq!(p, piece(Piece::I, 14, 5, Rotation::R1));
    let mut p = piece(Piece::I, 6, 5, Rotation::R0);
    p.clamp(15);
    assert_eq!(p, piece(Piece::I, 6, 5, Rotation::R0));
    let mut p = piece(Piece::I, i32::MAX, 5, Rotation::R0);
    p.clamp(15);
    assert_eq!(p, piece(Piece::I, 11, 5, Rotation::R0));
    let mut p = piece(Piece::I, i32::MIN, 5, Rotation::R0);
    p.clamp(15);
    assert_eq!(p, piece(Piece::I, 0, 5, Rotation::R0));
}

#[test]
fn clamp_on_a_board_narrower_than_the_piece() {
    let mut p = piece(Piece::I, 1, 5, Rotation::R0);
    p.clamp(3);
    assert_eq!(p, piece(Piece::I, -1, 5, Rotation::R0));
    let mut p = piece(Piece::I, 1, 5, Rotation::R0);
    p.clamp(0);
    assert_eq!(p, piece(Piece::I, -4, 5, Rotation::R0));
}

#[test]
fn clamp_on_a_board_wider_than_places_reach() {
    let mut p = piece(Piece::I, i32::MAX, 5, Rotation::R0);
    p.clamp(usize::MAX);
    assert_eq!(p, piece(Piece::I, i32::MAX, 5, Rotation::R0));
    let mut p = piece(Piece::I, i32::MAX, 5, Rotation::R0);
    p.clamp(i32::MAX as usize + 4);
    assert_eq!(p, piece(Piece::I, i32::MAX, 5, Rotation::R0));
    let mut p = piece(Piece::I, i32::MAX, 5, Rotation::R0);
    p.clamp(i32::MAX as usize + 3);
    assert_eq!(p, piece(Piece::I, i32::MAX - 1, 5, Rotation::R0));
}

#[test]
fn a_free_piece_passes_validation() {
    let board = Board::new(15, 20);
    let before = piece(Piece::T, 3, 3, Rotation::R0);
    let mut p = piece(Piece::T, 4, 3, Rotation::R1);
    p.validate(&board, before);
    assert_eq!(p, piece(Piece::T, 4, 3, Rotation::R1));
}

#[test]
fn an_obstructed_piece_goes_back_and_lands() {
    let mut board = Board::new(15, 20);
    assert!(board.occupy(6, 4));
    let before = piece(Piece::T, 3, 3, Rotation::R0);
    let mut p = piece(Piece::T, 4, 3, Rotation::R1);
    p.validate(&board, before);
    assert_eq!(
        p,
        CurrentPiece {
            piece: Piece::T,
            position: Pos { x: 3, y: 3 },
            rotation: Rotation::R0,
            placed: true
        }
    );
}

#[test]
fn gravity_moves_a_free_piece_down_by_one_row() {
    let board = Board::new(15, 20);
    let mut p = piece(Piece::J, 7, 17, Rotation::R0);
    p.fall(&board);
    assert_eq!(p, piece(Piece::J, 7, 16, Rotation::R0));
    assert!(!p.rests(&board));
}

#[test]
fn gravity_lands_a_piece_on_the_floor() {
    let board = Board::new(15, 20);
    let mut p = piece(Piece::J, 7, 0, Rotation::R0);
    assert!(p.rests(&board));
    p.fall(&board);
    assert_eq!(
        p,
        CurrentPiece {
            piece: Piece::J,
            position: Pos { x: 7, y: 0 },
            rotation: Rotation::R0,
            placed: true
        }
    );
}

#[test]
fn gravity_lands_a_piece_above_a_full_row() {
    let mut board = Board::new(15, 20);
    fill_row(&mut board, 4);
    for kind in KINDS {
        for rotation in [Rotation::R0, Rotation::R1, Rotation::R2, Rotation::R3] {
            let mut p = piece(kind, 6, 5, rotation);
            assert!(!board.is_obstructed(kind, p.position, rotation));
            p.fall(&board);
            assert_eq!(
                p,
                CurrentPiece {
                    piece: kind,
                    position: Pos { x: 6, y: 5 },
                    rotation,
                    placed: true
                }
            );
        }
    }
}

#[test]
fn gravity_at_the_lowest_place_there_is() {
    let board = Board::new(15, 20);
    let mut p = piece(Piece::O, 3, i32::MIN, Rotation::R0);
    p.fall(&board);
    assert!(p.placed);
    assert_eq!(p.position, Pos { x: 3, y: i32::MIN });
}
