//! The playfield: a grid of tiles with collision detection, stamping of
//! landed pieces and the clearing of full rows.

use crate::chance::random_below;
use crate::piece::{
    cells_at, lemma_shape_touches_axes, lemma_width_is_extent, piece_cells, shape, width_of, Piece,
    Pos, Rotation,
};
use vstd::prelude::*;

verus! {

/// The paint of a tile. `White` is the paint of a tile that nothing has been
/// stamped on.
#[derive(Clone, Copy, Debug, PartialEq, Eq, Structural)]
pub enum Color {
    White,
    Cyan,
    Yellow,
    Pink,
    Green,
    Red,
    Blue,
    Orange,
}

/// One cell of the playfield. The color of an unoccupied tile carries no
/// meaning.
#[derive(Clone, Copy, Debug, PartialEq, Eq, Structural)]
pub struct Tile {
    pub occupied: bool,
    pub color: Color,
}

/// The tile of a fresh playfield.
pub open spec fn empty_tile() -> Tile {
    Tile { occupied: false, color: Color::White }
}

/// A row of `width` fresh tiles.
pub open spec fn empty_row(width: nat) -> Seq<Tile> {
    Seq::new(width, |x: int| empty_tile())
}

/// A row is full when every one of its tiles is occupied.
pub open spec fn is_full(row: Seq<Tile>) -> bool {
    forall|x: int| 0 <= x < row.len() ==> (#[trigger] row[x]).occupied
}

/// The test that picks the rows that survive a clearing.
pub open spec fn survives() -> spec_fn(Seq<Tile>) -> bool {
    |row: Seq<Tile>| !is_full(row)
}

/// Whether `(x, y)` is one of the first `n` cells of the piece at `(px, py)`.
pub open spec fn covers_first(
    n: int,
    kind: Piece,
    px: int,
    py: int,
    rotation: Rotation,
    x: int,
    y: int,
) -> bool {
    exists|i: int| 0 <= i < n && #[trigger] cells_at(kind, px, py, rotation)[i] == (x, y)
}

/// Whether `(x, y)` is one of the four cells of the piece at `(px, py)`.
pub open spec fn covers(kind: Piece, px: int, py: int, rotation: Rotation, x: int, y: int) -> bool {
    covers_first(4, kind, px, py, rotation, x, y)
}

/// The playfield as a value: its size and its tiles, row by row from the
/// floor upwards.
pub struct Grid {
    pub width: nat,
    pub height: nat,
    pub rows: Seq<Seq<Tile>>,
}

impl Grid {
    /// The tiles form a rectangle of the stated size.
    pub open spec fn wf(self) -> bool {
        &&& self.rows.len() == self.height
        &&& forall|y: int| 0 <= y < self.rows.len() ==> (#[trigger] self.rows[y]).len() == self.width
    }

    /// The grid of the given size with no tile occupied.
    pub open spec fn empty(width: nat, height: nat) -> Grid {
        Grid { width, height, rows: Seq::new(height, |y: int| empty_row(width)) }
    }

    /// Whether `(x, y)` lies on the grid.
    pub open spec fn inside(self, x: int, y: int) -> bool {
        0 <= x < self.width && 0 <= y < self.height
    }

    /// Whether a piece may not cover the cell `(x, y)`: the cell is beyond
    /// the left or right wall, below the floor, or an occupied tile. A cell
    /// above the top row blocks nothing.
    pub open spec fn blocked(self, x: int, y: int) -> bool {
        x < 0 || x >= self.width || y < 0 || (y < self.height && self.rows[y][x].occupied)
    }

    /// Whether the piece at `(x, y)` has a blocked cell.
    pub open spec fn obstructed(self, kind: Piece, x: int, y: int, rotation: Rotation) -> bool {
        exists|i: int|
            0 <= i < 4 && self.blocked(
                (#[trigger] cells_at(kind, x, y, rotation)[i]).0,
                cells_at(kind, x, y, rotation)[i].1,
            )
    }

    /// The grid after the first `n` cells of the piece at `(px, py)` were
    /// marked occupied and painted with `color`.
    pub open spec fn stamped_first(
        self,
        n: int,
        kind: Piece,
        px: int,
        py: int,
        rotation: Rotation,
        color: Color,
    ) -> Grid {
        Grid {
            rows: Seq::new(
                self.rows.len(),
                |y: int|
                    Seq::new(
                        self.rows[y].len(),
                        |x: int|
                            if covers_first(n, kind, px, py, rotation, x, y) {
                                Tile { occupied: true, color }
                            } else {
                                self.rows[y][x]
                            },
                    ),
            ),
            ..self
        }
    }

    /// The grid after the piece at `(px, py)` was stamped with `color`: the
    /// cells of the piece that lie on the grid are occupied and painted, and
    /// every other tile is as before.
    pub open spec fn stamped(
        self,
        kind: Piece,
        px: int,
        py: int,
        rotation: Rotation,
        color: Color,
    ) -> Grid {
        self.stamped_first(4, kind, px, py, rotation, color)
    }

    /// The number of full rows.
    pub open spec fn full_rows(self) -> nat {
        (self.rows.len() - self.rows.filter(survives()).len()) as nat
    }

    /// The grid after a clearing: the rows that were not full, in their old
    /// order, with one fresh row on top for each row that went.
    pub open spec fn cleared(self) -> Grid {
        Grid {
            rows: self.rows.filter(survives()) + Seq::new(
                self.full_rows(),
                |i: int| empty_row(self.width),
            ),
            ..self
        }
    }

    /// No tile of the grid is occupied.
    pub open spec fn is_vacant(self) -> bool {
        forall|x: int, y: int| self.inside(x, y) ==> !(#[trigger] self.rows[y][x]).occupied
    }

    /// Every tile of the grid is occupied.
    pub open spec fn is_packed(self) -> bool {
        forall|x: int, y: int| self.inside(x, y) ==> (#[trigger] self.rows[y][x]).occupied
    }

    /// The grid with the tile at `(x, y)` marked occupied and its color kept.
    pub open spec fn occupied_at(self, x: int, y: int) -> Grid {
        Grid {
            rows: self.rows.update(
                y,
                self.rows[y].update(x, Tile { occupied: true, color: self.rows[y][x].color }),
            ),
            ..self
        }
    }

    /// The grid with every tile marked unoccupied and its color kept.
    pub open spec fn vacated(self) -> Grid {
        Grid {
            rows: Seq::new(
                self.rows.len(),
                |y: int|
                    Seq::new(
                        self.rows[y].len(),
                        |x: int| Tile { occupied: false, color: self.rows[y][x].color },
                    ),
            ),
            ..self
        }
    }
}

/// A playfield of fixed size. Rows are counted from the floor upwards.
#[derive(Debug)]
pub struct Board {
    width: usize,
    height: usize,
    rows: Vec<Vec<Tile>>,
}

impl View for Board {
    type V = Grid;

    closed spec fn view(&self) -> Grid {
        Grid {
            width: self.width as nat,
            height: self.height as nat,
            rows: Seq::new(self.rows@.len(), |y: int| self.rows@[y]@),
        }
    }
}

impl Board {
    /// The tiles form a rectangle of the stated size.
    pub open spec fn wf(&self) -> bool {
        self@.wf()
    }

    /// A playfield of the given size with no tile occupied.
    pub fn new(width: usize, height: usize) -> (board: Board)
        ensures
            board.wf(),
            board@ == Grid::empty(width as nat, height as nat),
    {
        let mut rows: Vec<Vec<Tile>> = Vec::new();
        let mut y: usize = 0;
        while y < height
            invariant
                y <= height,
                rows@.len() == y,
                forall|k: int| 0 <= k < y ==> (#[trigger] rows@[k])@ == empty_row(width as nat),
            decreases height - y,
        {
            rows.push(fresh_row(width));
            y += 1;
        }
        let board = Board { width, height, rows };
        assert(board@.rows =~= Grid::empty(width as nat, height as nat).rows);
        board
    }

    /// The number of columns.
    pub fn width(&self) -> (width: usize)
        ensures
            width == self@.width,
    {
        self.width
    }

    /// The number of rows.
    pub fn height(&self) -> (height: usize)
        ensures
            height == self@.height,
    {
        self.height
    }

    /// The tile at column `x` of row `y`, if the cell lies on the grid.
    pub fn tile(&self, x: usize, y: usize) -> (tile: Option<Tile>)
        requires
            self.wf(),
        ensures
            tile == if self@.inside(x as int, y as int) {
                Some(self@.rows[y as int][x as int])
            } else {
                None::<Tile>
            },
    {
        if x < self.width && y < self.height {
            assert(self@.rows[y as int] == self.rows@[y as int]@);
            Some(self.rows[y][x])
        } else {
            None
        }
    }

    /// Whether the piece at `offset` touches a wall, the floor or an occupied
    /// tile. Cells above the top row never count.
    pub fn is_obstructed(&self, kind: Piece, offset: Pos, rotation: Rotation) -> (hit: bool)
        requires
            self.wf(),
        ensures
            hit == self@.obstructed(kind, offset.x as int, offset.y as int, rotation),
    {
        let table: [Pos; 4] = piece_cells(kind, Pos { x: 0, y: 0 }, rotation);
        let mut i: usize = 0;
        while i < 4
            invariant
                self.wf(),
                i <= 4,
                table@.len() == 4,
                forall|k: int|
                    0 <= k < 4 ==> (#[trigger] table@[k])@ == cells_at(kind, 0, 0, rotation)[k],
                forall|k: int|
                    0 <= k < 4 ==> 0 <= (#[trigger] table@[k]).x <= 3 && 0 <= table@[k].y <= 3,
                forall|k: int|
                    0 <= k < i ==> !self@.blocked(
                        (#[trigger] cells_at(
                            kind,
                            offset.x as int,
                            offset.y as int,
                            rotation,
                        )[k]).0,
                        cells_at(kind, offset.x as int, offset.y as int, rotation)[k].1,
                    ),
            decreases 4 - i,
        {
            let x: i64 = offset.x as i64 + table[i].x as i64;
            let y: i64 = offset.y as i64 + table[i].y as i64;
            proof {
                let cell = cells_at(kind, offset.x as int, offset.y as int, rotation)[i as int];
                assert(table@[i as int]@ == cells_at(kind, 0, 0, rotation)[i as int]);
                assert(cell == (x as int, y as int));
            }
            if x < 0 || y < 0 || x as u64 >= self.width as u64 {
                return true;
            }
            if (y as u64) < self.height as u64 {
                assert(self@.rows[y as int] == self.rows@[y as int]@);
                if self.rows[y as usize][x as usize].occupied {
                    return true;
                }
            }
            i += 1;
        }
        false
    }

    /// Marks the cells of the piece at `offset` as occupied and paints them
    /// with `color`. A cell that lies off the grid is passed over, and a tile
    /// that was occupied already is painted over.
    pub fn stamp(&mut self, kind: Piece, offset: Pos, rotation: Rotation, color: Color)
        requires
            old(self).wf(),
        ensures
            final(self).wf(),
            final(self)@ == old(self)@.stamped(
                kind,
                offset.x as int,
                offset.y as int,
                rotation,
                color,
            ),
    {
        let table: [Pos; 4] = piece_cells(kind, Pos { x: 0, y: 0 }, rotation);
        let ghost px = offset.x as int;
        let ghost py = offset.y as int;
        let ghost start = self@;
        let mut i: usize = 0;
        assert(self@.rows =~~= start.stamped_first(0, kind, px, py, rotation, color).rows);
        while i < 4
            invariant
                self.wf(),
                start.wf(),
                i <= 4,
                px == offset.x,
                py == offset.y,
                table@.len() == 4,
                forall|k: int|
                    0 <= k < 4 ==> (#[trigger] table@[k])@ == cells_at(kind, 0, 0, rotation)[k],
                forall|k: int|
                    0 <= k < 4 ==> 0 <= (#[trigger] table@[k]).x <= 3 && 0 <= table@[k].y <= 3,
                self@ == start.stamped_first(i as int, kind, px, py, rotation, color),
            decreases 4 - i,
        {
            let x: i64 = offset.x as i64 + table[i].x as i64;
            let y: i64 = offset.y as i64 + table[i].y as i64;
            let ghost before = self@.rows;
            proof {
                assert(table@[i as int]@ == cells_at(kind, 0, 0, rotation)[i as int]);
                assert(cells_at(kind, px, py, rotation)[i as int] == (x as int, y as int));
            }
            if x >= 0 && y >= 0 && (x as u64) < self.width as u64 && (y as u64) < self.height as u64 {
                assert(self@.rows[y as int] == self.rows@[y as int]@);
                self.rows[y as usize][x as usize] = Tile { occupied: true, color };
                assert(self@.rows =~~= before.update(
                    y as int,
                    before[y as int].update(x as int, Tile { occupied: true, color }),
                ));
            }
            assert(self@.rows =~~= start.stamped_first(i + 1, kind, px, py, rotation, color).rows) by {
                assert forall|cy: int, cx: int|
                    0 <= cy < self@.rows.len() && 0 <= cx < self@.rows[cy].len() implies self@.rows[cy][cx]
                    == start.stamped_first(i + 1, kind, px, py, rotation, color).rows[cy][cx] by {
                    let hit_now = cx == x && cy == y;
                    assert(covers_first(i + 1, kind, px, py, rotation, cx, cy) <==> (covers_first(
                        i as int,
                        kind,
                        px,
                        py,
                        rotation,
                        cx,
                        cy,
                    ) || hit_now));
                }
            }
            i += 1;
        }
    }

    /// Removes every full row and puts one fresh row on top for each, so the
    /// rows above a removed row move down and the height stays. Returns the
    /// number of rows removed.
    pub fn clear_full_rows(&mut self) -> (count: usize)
        requires
            old(self).wf(),
        ensures
            final(self).wf(),
            final(self)@.rows.len() == old(self)@.rows.len(),
            count == old(self)@.full_rows(),
            final(self)@ == old(self)@.cleared(),
    {
        let ghost rows = self@.rows;
        let ghost width = self.width as nat;
        let mut count: usize = 0;
        let mut y: usize = self.height;
        proof {
            assert(rows.skip(y as int) =~= Seq::<Seq<Tile>>::empty());
            reveal_with_fuel(Seq::filter, 1);
            assert(rows.skip(y as int).filter(survives()) =~= Seq::<Seq<Tile>>::empty());
            assert(self@.rows =~= rows.take(y as int) + rows.skip(y as int).filter(survives())
                + Seq::new(count as nat, |i: int| empty_row(width)));
        }
        while y > 0
            invariant
                self.wf(),
                rows == old(self)@.rows,
                rows.len() == self.height,
                width == self.width,
                self@.width == old(self)@.width,
                self@.height == old(self)@.height,
                y <= self.height,
                count + rows.skip(y as int).filter(survives()).len() == self.height - y,
                self@.rows == rows.take(y as int) + rows.skip(y as int).filter(survives())
                    + Seq::new(count as nat, |i: int| empty_row(width)),
            decreases y,
        {
            y -= 1;
            let ghost before = self@.rows;
            let ghost above = rows.skip(y + 1).filter(survives());
            proof {
                assert(rows.skip(y as int) =~= seq![rows[y as int]] + rows.skip(y + 1));
                rows.skip(y + 1).lemma_filter_prepend(rows[y as int], survives());
                assert(before[y as int] == rows[y as int]);
                assert(self@.rows[y as int] == self.rows@[y as int]@);
            }
            if row_full(&self.rows[y]) {
                self.rows.remove(y);
                let ghost removed = self@.rows;
                assert(removed =~= before.remove(y as int));
                self.rows.push(fresh_row(self.width));
                assert(self@.rows =~= removed.push(empty_row(width)));
                count += 1;
                proof {
                    assert(rows.skip(y as int).filter(survives()) =~= above);
                    assert(removed =~= rows.take(y as int) + above + Seq::new(
                        (count - 1) as nat,
                        |i: int| empty_row(width),
                    ));
                    assert(self@.rows =~= rows.take(y as int) + above + Seq::new(
                        count as nat,
                        |i: int| empty_row(width),
                    ));
                }
            } else {
                proof {
                    assert(rows.skip(y as int).filter(survives()) =~= seq![rows[y as int]] + above);
                    assert(self@.rows =~= rows.take(y as int) + (seq![rows[y as int]] + above)
                        + Seq::new(count as nat, |i: int| empty_row(width)));
                }
            }
        }
        proof {
            assert(rows.skip(0) =~= rows);
            assert(rows.take(0) =~= Seq::<Seq<Tile>>::empty());
            assert(self@.rows =~= old(self)@.cleared().rows);
        }
        count
    }

    /// Marks the tile at column `x` of row `y` as occupied if it lies on the
    /// grid and is free, and says whether it did. The color stays.
    pub fn occupy(&mut self, x: usize, y: usize) -> (done: bool)
        requires
            old(self).wf(),
        ensures
            final(self).wf(),
            done == (old(self)@.inside(x as int, y as int) && !old(self)@.rows[y as int][x as int].occupied),
            final(self)@ == if done {
                old(self)@.occupied_at(x as int, y as int)
            } else {
                old(self)@
            },
    {
        if x >= self.width || y >= self.height {
            return false;
        }
        let ghost before = self@.rows;
        assert(self@.rows[y as int] == self.rows@[y as int]@);
        let tile: Tile = self.rows[y][x];
        if tile.occupied {
            return false;
        }
        self.rows[y][x] = Tile { occupied: true, color: tile.color };
        assert(self@.rows =~~= old(self)@.occupied_at(x as int, y as int).rows);
        true
    }

    /// Marks one free tile as occupied, if one is found in time: up to
    /// twenty cells are picked at random, and the first free one among them
    /// is taken. Says whether a tile was taken. Chance decides where some
    /// tiles are free and some are not: on a grid with no tile occupied the
    /// first pick is taken, and on a grid with every tile occupied none is.
    pub fn debug(&mut self) -> (done: bool)
        requires
            old(self).wf(),
            old(self)@.width > 0,
            old(self)@.height > 0,
        ensures
            final(self).wf(),
            old(self)@.is_vacant() ==> done,
            old(self)@.is_packed() ==> !done,
            !done ==> final(self)@ == old(self)@,
            done ==> exists|x: int, y: int|
                old(self)@.inside(x, y) && !old(self)@.rows[y][x].occupied && final(self)@ == old(
                    self,
                )@.occupied_at(x, y),
    {
        let mut tries: usize = 20;
        while tries > 0
            invariant
                self.wf(),
                self@ == old(self)@,
                self@.width > 0,
                self@.height > 0,
                tries < 20 ==> !self@.is_vacant(),
            decreases tries,
        {
            let x: usize = random_below(self.width);
            let y: usize = random_below(self.height);
            if self.occupy(x, y) {
                assert(!old(self)@.rows[y as int][x as int].occupied);
                return true;
            }
            assert(self@.rows[y as int][x as int].occupied);
            tries -= 1;
        }
        false
    }

    /// Marks every tile as unoccupied. The colors stay as they are.
    pub fn clear(&mut self)
        requires
            old(self).wf(),
        ensures
            final(self).wf(),
            final(self)@ == old(self)@.vacated(),
    {
        let ghost start = self@;
        let mut y: usize = 0;
        while y < self.height
            invariant
                self.wf(),
                start.wf(),
                self@.width == start.width,
                self@.height == start.height,
                y <= self.height,
                forall|cy: int, cx: int|
                    0 <= cy < self.height && 0 <= cx < self.width ==> #[trigger] self@.rows[cy][cx]
                        == (if cy < y {
                        Tile { occupied: false, color: start.rows[cy][cx].color }
                    } else {
                        start.rows[cy][cx]
                    }),
            decreases self.height - y,
        {
            let mut x: usize = 0;
            while x < self.width
                invariant
                    self.wf(),
                    start.wf(),
                    self@.width == start.width,
                    self@.height == start.height,
                    y < self.height,
                    x <= self.width,
                    forall|cy: int, cx: int|
                        0 <= cy < self.height && 0 <= cx < self.width
                            ==> #[trigger] self@.rows[cy][cx] == (if cy < y || (cy == y && cx < x) {
                            Tile { occupied: false, color: start.rows[cy][cx].color }
                        } else {
                            start.rows[cy][cx]
                        }),
                decreases self.width - x,
            {
                let ghost before = self@.rows;
                assert(self@.rows[y as int] == self.rows@[y as int]@);
                let color: Color = self.rows[y][x].color;
                self.rows[y][x] = Tile { occupied: false, color };
                assert(self@.rows =~~= before.update(
                    y as int,
                    before[y as int].update(x as int, Tile { occupied: false, color }),
                ));
                x += 1;
            }
            y += 1;
        }
        assert(self@.rows =~~= start.vacated().rows);
    }
}

/// A pose with a cell beyond the left wall, beyond the right wall or below
/// the floor is obstructed, whatever the tiles hold.
pub proof fn lemma_walls_and_floor_obstruct(
    grid: Grid,
    kind: Piece,
    x: int,
    y: int,
    rotation: Rotation,
    i: int,
)
    requires
        0 <= i < 4,
        ({
            let cell = cells_at(kind, x, y, rotation)[i];
            cell.0 < 0 || cell.0 >= grid.width || cell.1 < 0
        }),
    ensures
        grid.obstructed(kind, x, y, rotation),
{
    let cell = cells_at(kind, x, y, rotation)[i];
    assert(grid.blocked(cell.0, cell.1));
}

/// The ceiling never obstructs: a cell between the walls and at or above the
/// top of the grid blocks nothing, and a pose made of such cells only is
/// free, whatever the tiles hold.
pub proof fn lemma_ceiling_is_open(grid: Grid, kind: Piece, x: int, y: int, rotation: Rotation)
    requires
        forall|i: int|
            0 <= i < 4 ==> 0 <= (#[trigger] cells_at(kind, x, y, rotation)[i]).0 < grid.width
                && cells_at(kind, x, y, rotation)[i].1 >= grid.height,
    ensures
        !grid.obstructed(kind, x, y, rotation),
        forall|cx: int, cy: int| 0 <= cx < grid.width && cy >= grid.height ==> !grid.blocked(cx, cy),
{
}

/// A free pose lies between the walls and on or above the floor.
pub proof fn lemma_free_pose_in_bounds(grid: Grid, kind: Piece, x: int, y: int, rotation: Rotation)
    requires
        !grid.obstructed(kind, x, y, rotation),
    ensures
        0 <= x,
        x + width_of(kind, rotation) <= grid.width,
        0 <= y,
{
    lemma_shape_touches_axes(kind, rotation);
    lemma_width_is_extent(kind, rotation);
    let s = shape(kind, rotation);
    let left = choose|i: int| 0 <= i < 4 && (#[trigger] shape(kind, rotation)[i]).0 == 0;
    let low = choose|i: int| 0 <= i < 4 && (#[trigger] shape(kind, rotation)[i]).1 == 0;
    let right = choose|i: int|
        0 <= i < 4 && (#[trigger] shape(kind, rotation)[i]).0 + 1 == width_of(kind, rotation);
    let c = cells_at(kind, x, y, rotation);
    assert(!grid.blocked(c[left].0, c[left].1));
    assert(!grid.blocked(c[low].0, c[low].1));
    assert(!grid.blocked(c[right].0, c[right].1));
}

/// A piece cannot enter a full row: a pose whose lowest cells lie in a full
/// row of the grid is obstructed.
pub proof fn lemma_full_row_obstructs(grid: Grid, kind: Piece, x: int, y: int, rotation: Rotation)
    requires
        grid.wf(),
        0 <= y < grid.height,
        is_full(grid.rows[y]),
    ensures
        grid.obstructed(kind, x, y, rotation),
{
    lemma_shape_touches_axes(kind, rotation);
    let low = choose|i: int| 0 <= i < 4 && (#[trigger] shape(kind, rotation)[i]).1 == 0;
    let c = cells_at(kind, x, y, rotation);
    assert(c[low].1 == y);
    if 0 <= c[low].0 < grid.width {
        assert(grid.rows[y][c[low].0].occupied);
    }
    assert(grid.blocked(c[low].0, c[low].1));
}

/// Stamping keeps the size of the grid, and so does clearing: the grid has
/// as many rows after a clearing as before.
pub proof fn lemma_size_is_kept(
    grid: Grid,
    kind: Piece,
    x: int,
    y: int,
    rotation: Rotation,
    color: Color,
)
    requires
        grid.wf(),
    ensures
        grid.stamped(kind, x, y, rotation, color).wf(),
        grid.stamped(kind, x, y, rotation, color).width == grid.width,
        grid.stamped(kind, x, y, rotation, color).height == grid.height,
        grid.cleared().wf(),
        grid.cleared().width == grid.width,
        grid.cleared().height == grid.height,
        grid.cleared().rows.len() == grid.rows.len(),
        grid.full_rows() <= grid.height,
        grid.vacated().wf(),
{
    let keep = grid.rows.filter(survives());
    grid.rows.lemma_filter_len(survives());
    assert forall|r: int| 0 <= r < grid.cleared().rows.len() implies (
    #[trigger] grid.cleared().rows[r]).len() == grid.width by {
        if r < keep.len() {
            grid.rows.lemma_filter_contains_rev(survives(), keep[r]);
        }
    }
}

/// On a grid with at least one column, no row is full after a clearing.
pub proof fn lemma_cleared_has_no_full_row(grid: Grid)
    requires
        grid.wf(),
        grid.width > 0,
    ensures
        forall|r: int| 0 <= r < grid.height ==> !is_full(#[trigger] grid.cleared().rows[r]),
        grid.cleared().full_rows() == 0,
        grid.cleared().cleared() == grid.cleared(),
{
    lemma_size_is_kept(grid, Piece::I, 0, 0, Rotation::R0, Color::White);
    let keep = grid.rows.filter(survives());
    let after = grid.cleared().rows;
    grid.rows.lemma_filter_len(survives());
    assert forall|r: int| 0 <= r < after.len() implies survives()(#[trigger] after[r]) by {
        if r < keep.len() {
            grid.rows.lemma_filter_pred(survives(), r);
        } else {
            assert(after[r] == empty_row(grid.width));
            assert(!after[r][0].occupied);
        }
    }
    lemma_filter_keeps_all(after, survives());
    assert(grid.cleared().rows =~= grid.cleared().cleared().rows);
}

/// Where no row is full, a clearing changes nothing. On a grid with at least
/// one column, no row is full after the tiles were vacated.
pub proof fn lemma_nothing_to_clear(grid: Grid)
    requires
        grid.wf(),
    ensures
        (forall|r: int| 0 <= r < grid.height ==> !is_full(#[trigger] grid.rows[r]))
            ==> grid.full_rows() == 0 && grid.cleared() == grid,
        grid.width > 0 ==> forall|r: int|
            0 <= r < grid.height ==> !is_full(#[trigger] grid.vacated().rows[r]),
{
    if forall|r: int| 0 <= r < grid.height ==> !is_full(#[trigger] grid.rows[r]) {
        assert forall|r: int| 0 <= r < grid.rows.len() implies survives()(#[trigger] grid.rows[r]) by {}
        lemma_filter_keeps_all(grid.rows, survives());
        assert(grid.cleared().rows =~= grid.rows);
    }
    if grid.width > 0 {
        assert forall|r: int| 0 <= r < grid.height implies !is_full(
            #[trigger] grid.vacated().rows[r],
        ) by {
            assert(!grid.vacated().rows[r][0].occupied);
        }
    }
}

/// A filter that every item passes changes nothing.
proof fn lemma_filter_keeps_all(s: Seq<Seq<Tile>>, pred: spec_fn(Seq<Tile>) -> bool)
    requires
        forall|i: int| 0 <= i < s.len() ==> pred(#[trigger] s[i]),
    ensures
        s.filter(pred) == s,
    decreases s.len(),
{
    reveal(Seq::filter);
    if s.len() > 0 {
        lemma_filter_keeps_all(s.drop_last(), pred);
        assert(s.drop_last().push(s.last()) =~= s);
    }
}

/// Whether every tile of the row is occupied.
fn row_full(row: &Vec<Tile>) -> (full: bool)
    ensures
        full == is_full(row@),
{
    let mut x: usize = 0;
    while x < row.len()
        invariant
            x <= row@.len(),
            forall|k: int| 0 <= k < x ==> (#[trigger] row@[k]).occupied,
        decreases row@.len() - x,
    {
        if !row[x].occupied {
            return false;
        }
        x += 1;
    }
    true
}

/// A row of `width` fresh tiles.
fn fresh_row(width: usize) -> (row: Vec<Tile>)
    ensures
        row@ == empty_row(width as nat),
{
    let mut row: Vec<Tile> = Vec::new();
    let mut x: usize = 0;
    while x < width
        invariant
            x <= width,
            row@.len() == x,
            forall|k: int| 0 <= k < x ==> #[trigger] row@[k] == empty_tile(),
        decreases width - x,
    {
        row.push(Tile { occupied: false, color: Color::White });
        x += 1;
    }
    assert(row@ =~= empty_row(width as nat));
    row
}

} // verus!
