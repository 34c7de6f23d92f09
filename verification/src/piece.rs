//! Piece geometry: the seven kinds, their four rotation states and the cells
//! that a piece covers at a given place.

use vstd::prelude::*;

verus! {

/// The number of piece kinds.
pub const PIECE_COUNT: usize = 7;

/// One of the seven four-cell pieces.
#[derive(Clone, Copy, Debug, PartialEq, Eq, Structural)]
pub enum Piece {
    I,
    O,
    T,
    S,
    Z,
    J,
    L,
}

/// One of the four rotation states of a piece.
#[derive(Clone, Copy, Debug, PartialEq, Eq, Structural)]
pub enum Rotation {
    R0,
    R1,
    R2,
    R3,
}

/// The sense of a quarter turn.
#[derive(Clone, Copy, Debug, PartialEq, Eq, Structural)]
pub enum Direction {
    Cw,
    Ccw,
}

/// A place on the integer grid: a cell, or the offset of a piece. `x` grows
/// to the right and `y` grows upwards; the floor is the row `y == 0`.
#[derive(Clone, Copy, Debug, PartialEq, Eq, Structural)]
pub struct Pos {
    pub x: i32,
    pub y: i32,
}

impl View for Pos {
    type V = (int, int);

    open spec fn view(&self) -> (int, int) {
        (self.x as int, self.y as int)
    }
}

impl Piece {
    /// The position of the kind in the fixed order I, O, T, S, Z, J, L.
    pub open spec fn spec_index(self) -> int {
        match self {
            Piece::I => 0,
            Piece::O => 1,
            Piece::T => 2,
            Piece::S => 3,
            Piece::Z => 4,
            Piece::J => 5,
            Piece::L => 6,
        }
    }

    /// The seven kinds in their fixed order.
    pub open spec fn all() -> Seq<Piece> {
        seq![Piece::I, Piece::O, Piece::T, Piece::S, Piece::Z, Piece::J, Piece::L]
    }

    pub fn index(self) -> (i: usize)
        ensures
            i == self.spec_index(),
            i < PIECE_COUNT,
    {
        match self {
            Piece::I => 0,
            Piece::O => 1,
            Piece::T => 2,
            Piece::S => 3,
            Piece::Z => 4,
            Piece::J => 5,
            Piece::L => 6,
        }
    }

    /// The kind at position `i` of the fixed order, if there is one.
    pub fn from_index(i: usize) -> (kind: Option<Piece>)
        ensures
            i < PIECE_COUNT <==> kind.is_some(),
            kind matches Some(k) ==> k.spec_index() == i && k == Piece::all()[i as int],
    {
        match i {
            0 => Some(Piece::I),
            1 => Some(Piece::O),
            2 => Some(Piece::T),
            3 => Some(Piece::S),
            4 => Some(Piece::Z),
            5 => Some(Piece::J),
            6 => Some(Piece::L),
            _ => None,
        }
    }
}

impl Rotation {
    /// The number of quarter turns from the spawn orientation, 0 to 3.
    pub open spec fn spec_index(self) -> int {
        match self {
            Rotation::R0 => 0,
            Rotation::R1 => 1,
            Rotation::R2 => 2,
            Rotation::R3 => 3,
        }
    }

    /// The rotation state with `i mod 4` quarter turns.
    pub open spec fn of(i: int) -> Rotation {
        let r = i % 4;
        if r == 0 {
            Rotation::R0
        } else if r == 1 {
            Rotation::R1
        } else if r == 2 {
            Rotation::R2
        } else {
            Rotation::R3
        }
    }

    /// The state reached by one quarter turn in the given sense.
    pub open spec fn spec_turned(self, direction: Direction) -> Rotation {
        match direction {
            Direction::Cw => Rotation::of(self.spec_index() + 1),
            Direction::Ccw => Rotation::of(self.spec_index() - 1),
        }
    }

    pub fn index(self) -> (i: u8)
        ensures
            i == self.spec_index(),
            i < 4,
    {
        match self {
            Rotation::R0 => 0,
            Rotation::R1 => 1,
            Rotation::R2 => 2,
            Rotation::R3 => 3,
        }
    }

    /// The rotation state with `i mod 4` quarter turns.
    pub fn from_index(i: u8) -> (rotation: Rotation)
        ensures
            rotation == Rotation::of(i as int),
            rotation.spec_index() == i % 4,
    {
        match i % 4 {
            0 => Rotation::R0,
            1 => Rotation::R1,
            2 => Rotation::R2,
            _ => Rotation::R3,
        }
    }

    #[verifier::when_used_as_spec(spec_turned)]
    pub fn turned(self, direction: Direction) -> (rotation: Rotation)
        ensures
            rotation == self.spec_turned(direction),
            direction == Direction::Cw ==> rotation.spec_index() == (self.spec_index() + 1) % 4,
            direction == Direction::Ccw ==> rotation.spec_index() == (self.spec_index() + 3) % 4,
    {
        match direction {
            Direction::Cw => Rotation::from_index(self.index() + 1),
            Direction::Ccw => Rotation::from_index(self.index() + 3),
        }
    }
}

/// The cells of a piece at offset zero, in table order: four pairs
/// `(x, y)` for each kind and rotation state. I, S and Z have two distinct
/// orientations only, so their states 0 and 2 share a row of the table, as do
/// their states 1 and 3.
pub open spec fn shape(kind: Piece, rotation: Rotation) -> Seq<(int, int)> {
    let upright = rotation.spec_index() % 2 == 0;
    match kind {
        Piece::I => if upright {
            seq![(0, 0), (1, 0), (2, 0), (3, 0)]
        } else {
            seq![(0, 0), (0, 1), (0, 2), (0, 3)]
        },
        Piece::O => seq![(0, 0), (0, 1), (1, 0), (1, 1)],
        Piece::T => match rotation {
            Rotation::R0 => seq![(0, 1), (1, 1), (1, 0), (1, 2)],
            Rotation::R1 => seq![(1, 0), (1, 1), (0, 1), (2, 1)],
            Rotation::R2 => seq![(1, 1), (0, 1), (0, 0), (0, 2)],
            Rotation::R3 => seq![(1, 1), (1, 0), (0, 0), (2, 0)],
        },
        Piece::S => if upright {
            seq![(0, 0), (0, 1), (1, 1), (1, 2)]
        } else {
            seq![(0, 1), (1, 1), (1, 0), (2, 0)]
        },
        Piece::Z => if upright {
            seq![(1, 0), (0, 1), (1, 1), (0, 2)]
        } else {
            seq![(0, 0), (1, 1), (1, 0), (2, 1)]
        },
        Piece::J => match rotation {
            Rotation::R0 => seq![(0, 0), (0, 1), (1, 1), (2, 1)],
            Rotation::R1 => seq![(0, 0), (0, 1), (0, 2), (1, 0)],
            Rotation::R2 => seq![(0, 0), (1, 0), (2, 0), (2, 1)],
            Rotation::R3 => seq![(1, 0), (1, 1), (1, 2), (0, 2)],
        },
        Piece::L => match rotation {
            Rotation::R0 => seq![(0, 1), (0, 0), (1, 0), (2, 0)],
            Rotation::R1 => seq![(1, 0), (1, 1), (1, 2), (0, 0)],
            Rotation::R2 => seq![(0, 1), (1, 1), (2, 1), (2, 0)],
            Rotation::R3 => seq![(0, 0), (0, 1), (0, 2), (1, 2)],
        },
    }
}

/// The cells that a piece covers when its table is moved by `(x, y)`.
pub open spec fn cells_at(kind: Piece, x: int, y: int, rotation: Rotation) -> Seq<(int, int)> {
    Seq::new(4, |i: int| (x + shape(kind, rotation)[i].0, y + shape(kind, rotation)[i].1))
}

/// The larger of two integers.
pub open spec fn larger(a: int, b: int) -> int {
    if a >= b {
        a
    } else {
        b
    }
}

/// The width of the box around a piece: its largest `x` at offset zero,
/// plus one.
pub open spec fn width_of(kind: Piece, rotation: Rotation) -> int {
    let s = shape(kind, rotation);
    larger(larger(s[0].0, s[1].0), larger(s[2].0, s[3].0)) + 1
}

/// The four cells that the piece covers at `offset`, in table order.
pub fn piece_cells(kind: Piece, offset: Pos, rotation: Rotation) -> (cells: [Pos; 4])
    requires
        offset.x + 3 <= i32::MAX,
        offset.y + 3 <= i32::MAX,
    ensures
        cells@.len() == 4,
        forall|i: int|
            0 <= i < 4 ==> (#[trigger] cells@[i])@ == cells_at(
                kind,
                offset.x as int,
                offset.y as int,
                rotation,
            )[i],
        forall|i: int|
            0 <= i < 4 ==> offset.x <= (#[trigger] cells@[i]).x <= offset.x + 3 && offset.y
                <= cells@[i].y <= offset.y + 3,
{
    let x: i32 = offset.x;
    let y: i32 = offset.y;
    let upright: bool = rotation.index() % 2 == 0;
    let cells: [Pos; 4] = match kind {
        Piece::I => if upright {
            [Pos { x, y }, Pos { x: x + 1, y }, Pos { x: x + 2, y }, Pos { x: x + 3, y }]
        } else {
            [Pos { x, y }, Pos { x, y: y + 1 }, Pos { x, y: y + 2 }, Pos { x, y: y + 3 }]
        },
        Piece::O => [Pos { x, y }, Pos { x, y: y + 1 }, Pos { x: x + 1, y }, Pos { x: x + 1, y: y + 1 }],
        Piece::T => match rotation {
            Rotation::R0 => [
                Pos { x, y: y + 1 },
                Pos { x: x + 1, y: y + 1 },
                Pos { x: x + 1, y },
                Pos { x: x + 1, y: y + 2 },
            ],
            Rotation::R1 => [
                Pos { x: x + 1, y },
                Pos { x: x + 1, y: y + 1 },
                Pos { x, y: y + 1 },
                Pos { x: x + 2, y: y + 1 },
            ],
            Rotation::R2 => [
                Pos { x: x + 1, y: y + 1 },
                Pos { x, y: y + 1 },
                Pos { x, y },
                Pos { x, y: y + 2 },
            ],
            Rotation::R3 => [
                Pos { x: x + 1, y: y + 1 },
                Pos { x: x + 1, y },
                Pos { x, y },
                Pos { x: x + 2, y },
            ],
        },
        Piece::S => if upright {
            [Pos { x, y }, Pos { x, y: y + 1 }, Pos { x: x + 1, y: y + 1 }, Pos { x: x + 1, y: y + 2 }]
        } else {
            [Pos { x, y: y + 1 }, Pos { x: x + 1, y: y + 1 }, Pos { x: x + 1, y }, Pos { x: x + 2, y }]
        },
        Piece::Z => if upright {
            [Pos { x: x + 1, y }, Pos { x, y: y + 1 }, Pos { x: x + 1, y: y + 1 }, Pos { x, y: y + 2 }]
        } else {
            [Pos { x, y }, Pos { x: x + 1, y: y + 1 }, Pos { x: x + 1, y }, Pos { x: x + 2, y: y + 1 }]
        },
        Piece::J => match rotation {
            Rotation::R0 => [
                Pos { x, y },
                Pos { x, y: y + 1 },
                Pos { x: x + 1, y: y + 1 },
                Pos { x: x + 2, y: y + 1 },
            ],
            Rotation::R1 => [
                Pos { x, y },
                Pos { x, y: y + 1 },
                Pos { x, y: y + 2 },
                Pos { x: x + 1, y },
            ],
            Rotation::R2 => [
                Pos { x, y },
                Pos { x: x + 1, y },
                Pos { x: x + 2, y },
                Pos { x: x + 2, y: y + 1 },
            ],
            Rotation::R3 => [
                Pos { x: x + 1, y },
                Pos { x: x + 1, y: y + 1 },
                Pos { x: x + 1, y: y + 2 },
                Pos { x, y: y + 2 },
            ],
        },
        Piece::L => match rotation {
            Rotation::R0 => [
                Pos { x, y: y + 1 },
                Pos { x, y },
                Pos { x: x + 1, y },
                Pos { x: x + 2, y },
            ],
            Rotation::R1 => [
                Pos { x: x + 1, y },
                Pos { x: x + 1, y: y + 1 },
                Pos { x: x + 1, y: y + 2 },
                Pos { x, y },
            ],
            Rotation::R2 => [
                Pos { x, y: y + 1 },
                Pos { x: x + 1, y: y + 1 },
                Pos { x: x + 2, y: y + 1 },
                Pos { x: x + 2, y },
            ],
            Rotation::R3 => [
                Pos { x, y },
                Pos { x, y: y + 1 },
                Pos { x, y: y + 2 },
                Pos { x: x + 1, y: y + 2 },
            ],
        },
    };
    cells
}

/// The larger of two numbers.
fn larger_of(a: i32, b: i32) -> (m: i32)
    ensures
        m == larger(a as int, b as int),
{
    if a >= b {
        a
    } else {
        b
    }
}

/// The width of the box around the piece in the given rotation state.
pub fn piece_width(kind: Piece, rotation: Rotation) -> (width: i32)
    ensures
        width == width_of(kind, rotation),
        1 <= width <= 4,
{
    let cells: [Pos; 4] = piece_cells(kind, Pos { x: 0, y: 0 }, rotation);
    proof {
        assert forall|k: int| 0 <= k < 4 implies (#[trigger] cells@[k]).x == shape(
            kind,
            rotation,
        )[k].0 by {
            assert(cells@[k]@ == cells_at(kind, 0, 0, rotation)[k]);
        }
    }
    let rightmost: i32 = larger_of(
        larger_of(cells[0].x, cells[1].x),
        larger_of(cells[2].x, cells[3].x),
    );
    rightmost + 1
}

/// Every table holds four cells inside the box of four by four cells at the
/// origin.
pub proof fn lemma_shape_in_box(kind: Piece, rotation: Rotation)
    ensures
        shape(kind, rotation).len() == 4,
        forall|i: int|
            0 <= i < 4 ==> 0 <= (#[trigger] shape(kind, rotation)[i]).0 <= 3 && 0 <= shape(
                kind,
                rotation,
            )[i].1 <= 3,
{
}

/// Every table touches both axes: it has a cell in column 0 and a cell in
/// row 0.
pub proof fn lemma_shape_touches_axes(kind: Piece, rotation: Rotation)
    ensures
        exists|i: int| 0 <= i < 4 && (#[trigger] shape(kind, rotation)[i]).0 == 0,
        exists|i: int| 0 <= i < 4 && (#[trigger] shape(kind, rotation)[i]).1 == 0,
{
    let s = shape(kind, rotation);
    assert(s[0].0 == 0 || s[1].0 == 0 || s[2].0 == 0 || s[3].0 == 0);
    assert(s[0].1 == 0 || s[1].1 == 0 || s[2].1 == 0 || s[3].1 == 0);
}

/// The four cells of a table are four different cells.
pub proof fn lemma_shape_distinct(kind: Piece, rotation: Rotation)
    ensures
        forall|i: int, j: int|
            0 <= i < j < 4 ==> #[trigger] shape(kind, rotation)[i] != #[trigger] shape(
                kind,
                rotation,
            )[j],
{
    let s = shape(kind, rotation);
    assert(s[0] != s[1] && s[0] != s[2] && s[0] != s[3] && s[1] != s[2] && s[1] != s[3] && s[2]
        != s[3]);
}

/// The width of a piece is one more than the largest `x` of its table: no
/// cell lies at or beyond it, and one cell lies just below it.
pub proof fn lemma_width_is_extent(kind: Piece, rotation: Rotation)
    ensures
        forall|i: int| 0 <= i < 4 ==> (#[trigger] shape(kind, rotation)[i]).0 < width_of(kind, rotation),
        exists|i: int| 0 <= i < 4 && (#[trigger] shape(kind, rotation)[i]).0 + 1 == width_of(kind, rotation),
        1 <= width_of(kind, rotation) <= 4,
{
    let s = shape(kind, rotation);
    let w = width_of(kind, rotation);
    assert(s[0].0 + 1 == w || s[1].0 + 1 == w || s[2].0 + 1 == w || s[3].0 + 1 == w);
}

/// I, S and Z look the same after a half turn: two rotation states of the
/// same parity share their table, and so their width.
pub proof fn lemma_half_turn_same_shape(kind: Piece, a: Rotation, b: Rotation)
    requires
        kind == Piece::I || kind == Piece::S || kind == Piece::Z,
        a.spec_index() % 2 == b.spec_index() % 2,
    ensures
        shape(kind, a) == shape(kind, b),
        width_of(kind, a) == width_of(kind, b),
{
}

} // verus!
