//! The falling piece: where it is, how it is turned, and how moves, drops
//! and gravity change it.

use crate::board::{lemma_full_row_obstructs, is_full, Board, Color, Grid};
use crate::piece::{
    lemma_shape_touches_axes, lemma_width_is_extent, piece_width, cells_at, shape, width_of,
    Direction, Piece, Pos, Rotation,
};
use vstd::prelude::*;

verus! {

/// The falling piece as a value, with its place in unbounded integers.
pub struct Pose {
    pub kind: Piece,
    pub x: int,
    pub y: int,
    pub rotation: Rotation,
    pub landed: bool,
}

/// Half of `a - b`, rounded towards zero: how far a piece moves sideways to
/// stay centered when its width changes from `a` to `b`.
pub open spec fn recentering(a: int, b: int) -> int {
    if a >= b {
        (a - b) / 2
    } else {
        -((b - a) / 2)
    }
}

/// The paint of each kind.
pub open spec fn color_of(kind: Piece) -> Color {
    match kind {
        Piece::I => Color::Cyan,
        Piece::O => Color::Yellow,
        Piece::T => Color::Pink,
        Piece::S => Color::Green,
        Piece::Z => Color::Red,
        Piece::J => Color::Blue,
        Piece::L => Color::Orange,
    }
}

impl Pose {
    /// A piece as it enters a playfield of the given size: in the middle
    /// column, three rows below the top, not turned, falling.
    pub open spec fn spawned(kind: Piece, width: nat, height: nat) -> Pose {
        Pose { kind, x: width as int / 2, y: height - 3, rotation: Rotation::R0, landed: false }
    }

    /// The width of the piece as it is turned now.
    pub open spec fn width(self) -> int {
        width_of(self.kind, self.rotation)
    }

    /// Whether the piece, where it is, touches a wall, the floor or an
    /// occupied tile of the grid.
    pub open spec fn obstructed_on(self, grid: Grid) -> bool {
        grid.obstructed(self.kind, self.x, self.y, self.rotation)
    }

    /// Whether the piece could not stand one row lower.
    pub open spec fn rests_on(self, grid: Grid) -> bool {
        grid.obstructed(self.kind, self.x, self.y - 1, self.rotation)
    }

    /// The piece after a quarter turn, moved sideways so that it stays
    /// centered. Nothing is tested against the grid.
    pub open spec fn rotated(self, direction: Direction) -> Pose {
        let turned = self.rotation.spec_turned(direction);
        Pose {
            x: self.x + recentering(self.width(), width_of(self.kind, turned)),
            rotation: turned,
            ..self
        }
    }

    /// The piece moved sideways by `dx`. Nothing is tested against the grid.
    pub open spec fn translated(self, dx: int) -> Pose {
        Pose { x: self.x + dx, ..self }
    }

    /// The piece at the left end of the floor, landed.
    pub open spec fn force_landed(self) -> Pose {
        Pose { x: 0, y: 0, landed: true, ..self }
    }

    /// The piece moved down by `rows` rows.
    pub open spec fn lowered(self, rows: int) -> Pose {
        Pose { y: self.y - rows, ..self }
    }

    /// Whether `low` is the row at which a drop from `self.y` comes to rest:
    /// every step on the way down is free, and the next one is not.
    pub open spec fn drop_stops_at(self, grid: Grid, low: int) -> bool {
        &&& low <= self.y
        &&& forall|row: int|
            low <= row < self.y ==> !#[trigger] grid.obstructed(
                self.kind,
                self.x,
                row,
                self.rotation,
            )
        &&& grid.obstructed(self.kind, self.x, low - 1, self.rotation)
    }

    /// The piece after a drop: at the row where the drop comes to rest.
    pub open spec fn dropped(self, grid: Grid) -> Pose {
        Pose { y: choose|low: int| self.drop_stops_at(grid, low), ..self }
    }

    /// The piece with its column brought into the range from 0 to the grid's
    /// width less the piece's width. Where the piece is wider than the grid,
    /// the upper end of the range counts.
    pub open spec fn clamped(self, width: nat) -> Pose {
        let x = if self.x < 0 {
            0
        } else {
            self.x
        };
        Pose {
            x: if x + self.width() >= width {
                width - self.width()
            } else {
                x
            },
            ..self
        }
    }

    /// The piece after its moves were held against the grid: a free pose
    /// stands; an obstructed one is given up for the pose before the moves,
    /// which lands.
    pub open spec fn validated(self, grid: Grid, before: Pose) -> Pose {
        if self.obstructed_on(grid) {
            Pose { landed: true, ..before }
        } else {
            self
        }
    }

    /// The piece after gravity pulled once: one row lower where that row is
    /// free, and else where it was, landed.
    pub open spec fn fallen(self, grid: Grid) -> Pose {
        if self.rests_on(grid) {
            Pose { landed: true, ..self }
        } else {
            Pose { y: self.y - 1, ..self }
        }
    }
}

/// The falling piece.
#[derive(Clone, Copy, Debug, PartialEq, Eq, Structural)]
pub struct CurrentPiece {
    pub piece: Piece,
    pub position: Pos,
    pub rotation: Rotation,
    pub placed: bool,
}

impl View for CurrentPiece {
    type V = Pose;

    open spec fn view(&self) -> Pose {
        Pose {
            kind: self.piece,
            x: self.position.x as int,
            y: self.position.y as int,
            rotation: self.rotation,
            landed: self.placed,
        }
    }
}

impl CurrentPiece {
    /// A piece of the given kind as it enters a playfield of the given size.
    pub fn new(piece: Piece, board_width: usize, board_height: usize) -> (spawned: CurrentPiece)
        requires
            board_width <= i32::MAX,
            board_height <= i32::MAX,
        ensures
            spawned@ == Pose::spawned(piece, board_width as nat, board_height as nat),
    {
        CurrentPiece {
            piece,
            position: Pos { x: (board_width / 2) as i32, y: board_height as i32 - 3 },
            rotation: Rotation::R0,
            placed: false,
        }
    }

    /// The width of the piece as it is turned now.
    pub fn width(&self) -> (width: i32)
        ensures
            width == self@.width(),
            1 <= width <= 4,
    {
        piece_width(self.piece, self.rotation)
    }

    /// The paint of the piece.
    pub fn get_color(self) -> (color: Color)
        ensures
            color == color_of(self.piece),
    {
        match self.piece {
            Piece::I => Color::Cyan,
            Piece::O => Color::Yellow,
            Piece::T => Color::Pink,
            Piece::S => Color::Green,
            Piece::Z => Color::Red,
            Piece::J => Color::Blue,
            Piece::L => Color::Orange,
        }
    }

    /// Turns the piece by a quarter turn and moves it sideways by half the
    /// change of its width, rounded towards zero, so that it stays centered.
    /// The grid is not looked at.
    pub fn rotate(&mut self, direction: Direction)
        requires
            i32::MIN < old(self).position.x < i32::MAX,
        ensures
            final(self)@ == old(self)@.rotated(direction),
            old(self).position.x - 1 <= final(self).position.x <= old(self).position.x + 1,
    {
        let turned: Rotation = self.rotation.turned(direction);
        let current_width: i32 = piece_width(self.piece, self.rotation);
        let new_width: i32 = piece_width(self.piece, turned);
        let offset: i32 = (current_width - new_width) / 2;
        self.position.x = self.position.x + offset;
        self.rotation = turned;
    }

    /// Moves the piece sideways by `dx`. The grid is not looked at.
    pub fn translate(&mut self, dx: i32)
        requires
            i32::MIN <= old(self).position.x + dx <= i32::MAX,
        ensures
            final(self)@ == old(self)@.translated(dx as int),
    {
        self.position.x = self.position.x + dx;
    }

    /// Lets the piece fall as far as it can: row by row, as long as the row
    /// below is free. The piece does not land by this.
    pub fn hard_drop(&mut self, board: &Board)
        requires
            board.wf(),
        ensures
            old(self)@.drop_stops_at(board@, final(self).position.y as int),
            final(self)@ == old(self)@.lowered(old(self).position.y - final(self).position.y),
            final(self)@ == old(self)@.dropped(board@),
    {
        let ghost start = self@;
        loop
            invariant
                board.wf(),
                self@ == start.lowered(start.y - self.position.y),
                self.position.y <= start.y,
                forall|row: int|
                    self.position.y <= row < start.y ==> !#[trigger] board@.obstructed(
                        start.kind,
                        start.x,
                        row,
                        start.rotation,
                    ),
            ensures
                start.drop_stops_at(board@, self.position.y as int),
                self@ == start.lowered(start.y - self.position.y),
            decreases self.position.y - i32::MIN,
        {
            if self.rests(board) {
                break;
            }
            self.position.y = self.position.y - 1;
        }
        proof {
            lemma_drop_stops_once(start, board@, self.position.y as int, start.dropped(board@).y);
        }
    }

    /// Puts the piece at the left end of the floor and marks it as landed.
    pub fn soft_land(&mut self)
        ensures
            final(self)@ == old(self)@.force_landed(),
    {
        self.position = Pos { x: 0, y: 0 };
        self.placed = true;
    }

    /// Brings the column of the piece into the range from 0 to the board's
    /// width less the piece's width.
    pub fn clamp(&mut self, board_width: usize)
        ensures
            final(self)@ == old(self)@.clamped(board_width as nat),
            -4 <= final(self).position.x <= board_width,
    {
        let width: i32 = self.width();
        if self.position.x < 0 {
            self.position.x = 0;
        }
        let reach: i64 = self.position.x as i64 + width as i64;
        if reach as u64 >= board_width as u64 {
            let edge: i64 = board_width as i64 - width as i64;
            self.position.x = edge as i32;
        }
    }

    /// Holds the piece against the board after its moves: where it is
    /// obstructed, it goes back to `before`, the pose it had before the
    /// moves, and lands.
    pub fn validate(&mut self, board: &Board, before: CurrentPiece)
        requires
            board.wf(),
        ensures
            final(self)@ == old(self)@.validated(board@, before@),
    {
        if board.is_obstructed(self.piece, self.position, self.rotation) {
            *self = before;
            self.placed = true;
        }
    }

    /// Pulls the piece down by one row where that row is free; where it is
    /// not, the piece stays and lands.
    pub fn fall(&mut self, board: &Board)
        requires
            board.wf(),
        ensures
            final(self)@ == old(self)@.fallen(board@),
    {
        if self.rests(board) {
            self.placed = true;
        } else {
            self.position.y = self.position.y - 1;
        }
    }

    /// Whether the piece could not stand one row lower.
    pub fn rests(&self, board: &Board) -> (resting: bool)
        requires
            board.wf(),
        ensures
            resting == self@.rests_on(board@),
            !resting ==> self.position.y > 0,
    {
        proof {
            lemma_shape_touches_axes(self.piece, self.rotation);
            let low = choose|i: int|
                0 <= i < 4 && (#[trigger] shape(self.piece, self.rotation)[i]).1 == 0;
            let cell = cells_at(self.piece, self@.x, self@.y - 1, self.rotation)[low];
            assert(self@.y <= 0 ==> board@.blocked(cell.0, cell.1));
        }
        if self.position.y <= 0 {
            true
        } else {
            board.is_obstructed(
                self.piece,
                Pos { x: self.position.x, y: self.position.y - 1 },
                self.rotation,
            )
        }
    }
}

/// A drop comes to rest at one row only.
pub proof fn lemma_drop_stops_once(pose: Pose, grid: Grid, a: int, b: int)
    requires
        pose.drop_stops_at(grid, a),
    ensures
        pose.drop_stops_at(grid, b) ==> a == b,
        pose.dropped(grid).y == a,
{
    assert forall|c: int| pose.drop_stops_at(grid, c) implies a == c by {
        if a < c {
            assert(!grid.obstructed(pose.kind, pose.x, c - 1, pose.rotation));
        }
        if c < a {
            assert(!grid.obstructed(pose.kind, pose.x, a - 1, pose.rotation));
        }
    }
}

/// A piece that cannot stand one row lower keeps its pose under gravity and
/// lands; so does a piece right above a full row. A move that ends in an
/// obstructed pose is undone as a whole, and the piece lands where it was
/// before the move.
pub proof fn lemma_blocked_piece_lands(pose: Pose, grid: Grid, before: Pose)
    requires
        grid.wf(),
    ensures
        pose.rests_on(grid) ==> pose.fallen(grid) == (Pose { landed: true, ..pose }),
        0 < pose.y <= grid.height && is_full(grid.rows[pose.y - 1]) ==> pose.fallen(grid) == (Pose {
            landed: true,
            ..pose
        }),
        !pose.rests_on(grid) ==> pose.fallen(grid) == pose.lowered(1),
        pose.obstructed_on(grid) ==> pose.validated(grid, before) == (Pose {
            landed: true,
            ..before
        }),
        !pose.obstructed_on(grid) ==> pose.validated(grid, before) == pose,
{
    if 0 < pose.y <= grid.height && is_full(grid.rows[pose.y - 1]) {
        lemma_full_row_obstructs(grid, pose.kind, pose.x, pose.y - 1, pose.rotation);
    }
}

/// A turn moves the piece sideways by half the change of its width, rounded
/// towards zero, which is one column at most. The I piece moves one column
/// to the right when it is stood up, and one column to the left when it is
/// laid down.
pub proof fn lemma_rotation_recenters(pose: Pose, direction: Direction)
    ensures
        pose.rotated(direction).x - pose.x == recentering(
            pose.width(),
            pose.rotated(direction).width(),
        ),
        -1 <= pose.rotated(direction).x - pose.x <= 1,
        pose.rotated(direction).y == pose.y,
        pose.rotated(direction).landed == pose.landed,
        pose.kind == Piece::I && pose.rotation.spec_index() % 2 == 0 ==> pose.rotated(direction).x
            == pose.x + 1,
        pose.kind == Piece::I && pose.rotation.spec_index() % 2 == 1 ==> pose.rotated(direction).x
            == pose.x - 1,
{
    lemma_width_is_extent(pose.kind, pose.rotation);
    lemma_width_is_extent(pose.kind, pose.rotation.spec_turned(direction));
}

} // verus!
