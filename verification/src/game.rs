//! The whole game: one state and the tick that moves it on.
//!
//! A tick takes the player's intents and the time that has passed, and does
//! four things in a fixed order: it applies the intents to the falling piece
//! and holds the result against the playfield; it lets the gravity clock run
//! and pulls the piece down when a period has ended; it stamps a landed piece
//! into the playfield and brings in the next one; and it clears the full rows
//! and counts them towards score and level.

use crate::active::{color_of, CurrentPiece, Pose};
use crate::bag::{
    after_draw, batch_of, is_full_batch, is_stock, lemma_batch_of_is_full, lemma_full_batch, Bag,
};
use crate::board::{
    is_full, lemma_cleared_has_no_full_row, lemma_nothing_to_clear, lemma_size_is_kept, Board,
    Color, Grid,
};
use crate::clock::{
    gravity_interval, interval, lemma_interval_shrinks, GravityClock, Timing, BASE_TIME, MIN_TIME,
};
use crate::piece::{lemma_width_is_extent, Direction, Piece, Pos, Rotation};
use crate::progress::{
    lemma_gain_is_bounded, lemma_progress_only_rises, Progress, Standing, MAX_GAIN,
};
use vstd::prelude::*;

verus! {

/// The longest side that a playfield of a game may have. Places are 32-bit
/// numbers, and a piece may stand a few columns beyond a wall before its
/// moves are held against the playfield.
pub const MAX_SIDE: usize = 0x7fff_fffc;

/// The side of the small grid on which a single piece is shown.
pub const PREVIEW_SIDE: usize = 4;

/// What the player asks for during one tick. Each intent is present or not;
/// the tick applies those present in a fixed order.
#[derive(Clone, Copy, Debug, PartialEq, Eq, Structural)]
pub struct Intents {
    /// Turn the piece by a quarter turn clockwise.
    pub rotate_cw: bool,
    /// Turn the piece by a quarter turn counterclockwise.
    pub rotate_ccw: bool,
    /// Move the piece one column to the left.
    pub move_left: bool,
    /// Move the piece one column to the right.
    pub move_right: bool,
    /// Begin to speed the fall up.
    pub soft_drop_start: bool,
    /// Stop speeding the fall up.
    pub soft_drop_end: bool,
    /// Let the piece fall as far as it can.
    pub hard_drop: bool,
    /// Put the piece at the left end of the floor and land it.
    pub force_land: bool,
    /// Start the game over.
    pub reset: bool,
}

impl Intents {
    /// No intent at all.
    pub open spec fn spec_none() -> Intents {
        Intents {
            rotate_cw: false,
            rotate_ccw: false,
            move_left: false,
            move_right: false,
            soft_drop_start: false,
            soft_drop_end: false,
            hard_drop: false,
            force_land: false,
            reset: false,
        }
    }

    /// No intent at all.
    #[verifier::when_used_as_spec(spec_none)]
    pub fn none() -> (intents: Intents)
        ensures
            intents == Intents::spec_none(),
    {
        Intents {
            rotate_cw: false,
            rotate_ccw: false,
            move_left: false,
            move_right: false,
            soft_drop_start: false,
            soft_drop_end: false,
            hard_drop: false,
            force_land: false,
            reset: false,
        }
    }
}

/// The game as a value.
pub struct State {
    pub grid: Grid,
    pub piece: Pose,
    pub bag: Seq<Piece>,
    pub standing: Standing,
    pub timing: Timing,
    pub soft_drop: bool,
}

impl State {
    /// What holds of a game at every step of a tick: every part is well
    /// formed, the playfield is not larger than places can tell, and the
    /// piece stands at most four columns beyond a wall.
    pub open spec fn sound(self) -> bool {
        &&& self.grid.wf()
        &&& self.grid.width <= MAX_SIDE
        &&& self.grid.height <= MAX_SIDE
        &&& is_stock(self.bag)
        &&& self.standing.wf()
        &&& self.timing.wf()
        &&& -4 <= self.piece.x <= self.grid.width
    }

    /// What holds of a game between two ticks, besides: the piece has not
    /// landed; it is free, or it has just come in and was not yet held
    /// against the playfield; and on a playfield with at least one column no
    /// row is full.
    pub open spec fn at_rest(self) -> bool {
        &&& !self.piece.landed
        &&& self.piece.obstructed_on(self.grid) ==> self.piece == Pose::spawned(
            self.piece.kind,
            self.grid.width,
            self.grid.height,
        )
        &&& self.grid.width > 0 ==> forall|y: int|
            0 <= y < self.grid.height ==> !is_full(#[trigger] self.grid.rows[y])
    }

    /// The game is sound and at rest.
    pub open spec fn wf(self) -> bool {
        self.sound() && self.at_rest()
    }

    /// Whether score and row count have room for one more tick.
    pub open spec fn has_room(self) -> bool {
        &&& self.standing.score + MAX_GAIN <= usize::MAX
        &&& self.standing.lines + self.grid.height <= u32::MAX
    }

    /// A game at its start: an empty playfield, the last piece of `batch`
    /// falling and the rest of it in the bag, no score, level 0, and a clock
    /// on which no time has run.
    pub open spec fn initial(width: nat, height: nat, batch: Seq<Piece>) -> State {
        State {
            grid: Grid::empty(width, height),
            piece: Pose::spawned(batch.last(), width, height),
            bag: batch.drop_last(),
            standing: Standing { score: 0, level: 0, lines: 0 },
            timing: Timing { period: BASE_TIME as nat, elapsed: 0 },
            soft_drop: false,
        }
    }

    /// The piece after the moves among the intents, in this order: turn
    /// clockwise, turn counterclockwise, one column left, one column right,
    /// forced landing, hard drop. No move is held against the playfield but
    /// the hard drop.
    pub open spec fn moved(self, intents: Intents) -> Pose {
        let start = self.piece;
        let turned_cw = if intents.rotate_cw {
            start.rotated(Direction::Cw)
        } else {
            start
        };
        let turned_ccw = if intents.rotate_ccw {
            turned_cw.rotated(Direction::Ccw)
        } else {
            turned_cw
        };
        let moved_left = if intents.move_left {
            turned_ccw.translated(-1)
        } else {
            turned_ccw
        };
        let moved_right = if intents.move_right {
            moved_left.translated(1)
        } else {
            moved_left
        };
        let forced = if intents.force_land {
            moved_right.force_landed()
        } else {
            moved_right
        };
        if intents.hard_drop {
            forced.dropped(self.grid)
        } else {
            forced
        }
    }

    /// The game after a reset: the playfield vacated, score and level at
    /// zero, and the next piece of the bag falling.
    pub open spec fn restarted(self, refill: Seq<Piece>) -> State {
        State {
            grid: self.grid.vacated(),
            standing: self.standing.restarted(),
            piece: Pose::spawned(self.bag.last(), self.grid.width, self.grid.height),
            bag: after_draw(self.bag, refill),
            ..self
        }
    }

    /// The game after the intents of a tick: the moves are applied, or with
    /// a reset among the intents the game is restarted; then the column of
    /// the piece is clamped and the piece is held against the playfield. An
    /// obstructed piece gives way to the piece as it was when the tick began,
    /// which lands.
    pub open spec fn handled(self, intents: Intents, refill: Seq<Piece>) -> State {
        let next = if intents.reset {
            self.restarted(refill)
        } else {
            State { piece: self.moved(intents), ..self }
        };
        State {
            piece: next.piece.clamped(next.grid.width).validated(next.grid, self.piece),
            ..next
        }
    }

    /// Whether the player speeds the piece up after the intents: a start
    /// counts before an end, and without either nothing changes.
    pub open spec fn speeding(self, intents: Intents) -> bool {
        if intents.soft_drop_start {
            true
        } else if intents.soft_drop_end {
            false
        } else {
            self.soft_drop
        }
    }

    /// The period of the gravity clock: the least time while the player
    /// speeds the piece up, and else the interval of the level.
    pub open spec fn period(self) -> nat {
        if self.soft_drop {
            MIN_TIME as nat
        } else {
            interval(self.standing.level) as nat
        }
    }

    /// The game after gravity had its turn: the clock takes the period that
    /// level and intents ask for and keeps the time that has run, `delta`
    /// passes, and where a period has ended the piece falls by one row or
    /// lands.
    pub open spec fn pulled(self, intents: Intents, delta: nat) -> State {
        let next = State { soft_drop: self.speeding(intents), ..self };
        let timing = self.timing.retimed(next.period());
        State {
            timing: timing.ticked(delta),
            piece: if timing.fires(delta) {
                self.piece.fallen(self.grid)
            } else {
                self.piece
            },
            ..next
        }
    }

    /// The game after a landed piece was stamped into the playfield in the
    /// paint of its kind and the next piece of the bag came in. A piece that
    /// has not landed changes nothing.
    pub open spec fn placed(self, refill: Seq<Piece>) -> State {
        if self.piece.landed {
            State {
                grid: self.grid.stamped(
                    self.piece.kind,
                    self.piece.x,
                    self.piece.y,
                    self.piece.rotation,
                    color_of(self.piece.kind),
                ),
                piece: Pose::spawned(self.bag.last(), self.grid.width, self.grid.height),
                bag: after_draw(self.bag, refill),
                ..self
            }
        } else {
            self
        }
    }

    /// The game after the full rows were cleared and counted.
    pub open spec fn assessed(self) -> State {
        State {
            grid: self.grid.cleared(),
            standing: self.standing.advanced(self.grid.full_rows()),
            ..self
        }
    }

    /// The game after one tick with the given intents, in which `delta` has
    /// passed. `refill` is the batch that fills the bag if a draw empties it.
    pub open spec fn ticked(self, intents: Intents, delta: nat, refill: Seq<Piece>) -> State {
        self.handled(intents, refill).pulled(intents, delta).placed(refill).assessed()
    }
}

/// A game in progress.
#[derive(Debug)]
pub struct Game {
    board: Board,
    piece: CurrentPiece,
    bag: Bag,
    progress: Progress,
    clock: GravityClock,
    soft_drop: bool,
}

impl View for Game {
    type V = State;

    closed spec fn view(&self) -> State {
        State {
            grid: self.board@,
            piece: self.piece@,
            bag: self.bag@,
            standing: self.progress@,
            timing: self.clock@,
            soft_drop: self.soft_drop,
        }
    }
}

impl Game {
    /// The game is sound and at rest, as it is between two ticks.
    pub open spec fn wf(&self) -> bool {
        self@.wf()
    }

    /// The game is sound, as it is at every step of a tick.
    pub open spec fn sound(&self) -> bool {
        self@.sound()
    }

    /// A new game on a playfield of the given size, with a freshly shuffled
    /// bag.
    pub fn new(width: usize, height: usize) -> (game: Game)
        requires
            width <= MAX_SIDE,
            height <= MAX_SIDE,
        ensures
            game.wf(),
            exists|batch: Seq<Piece>|
                is_full_batch(batch) && game@ == State::initial(width as nat, height as nat, batch),
    {
        let (game, _) = Game::start(width, height, None);
        game
    }

    /// A new game on a playfield of the given size, with the batch in the
    /// bag that the picks select.
    pub fn from_picks(width: usize, height: usize, picks: &[usize; 6]) -> (game: Game)
        requires
            width <= MAX_SIDE,
            height <= MAX_SIDE,
        ensures
            game.wf(),
            game@ == State::initial(width as nat, height as nat, batch_of(picks@)),
    {
        let (game, _) = Game::start(width, height, Some(picks));
        game
    }

    fn start(width: usize, height: usize, picks: Option<&[usize; 6]>) -> (out: (
        Game,
        Ghost<Seq<Piece>>,
    ))
        requires
            width <= MAX_SIDE,
            height <= MAX_SIDE,
        ensures
            out.0.wf(),
            is_full_batch(out.1@),
            picks matches Some(p) ==> out.1@ == batch_of(p@),
            out.0@ == State::initial(width as nat, height as nat, out.1@),
    {
        let mut bag = match picks {
            Some(p) => Bag::from_picks(p),
            None => Bag::new(),
        };
        let ghost batch = bag@;
        proof {
            lemma_full_batch(batch);
        }
        let (kind, _) = bag.draw(picks);
        let game = Game {
            board: Board::new(width, height),
            piece: CurrentPiece::new(kind, width, height),
            bag,
            progress: Progress::new(),
            clock: GravityClock::new(),
            soft_drop: false,
        };
        proof {
            if width > 0 {
                assert forall|y: int| 0 <= y < height implies !is_full(
                    #[trigger] game@.grid.rows[y],
                ) by {
                    assert(!game@.grid.rows[y][0].occupied);
                }
            }
        }
        (game, Ghost(batch))
    }

    /// The playfield.
    pub fn board(&self) -> (board: &Board)
        ensures
            board@ == self@.grid,
    {
        &self.board
    }

    /// The falling piece.
    pub fn piece(&self) -> (piece: CurrentPiece)
        ensures
            piece@ == self@.piece,
    {
        self.piece
    }

    /// The kind of the piece that comes in next.
    pub fn next_piece(&self) -> (kind: Piece)
        requires
            self.wf(),
        ensures
            kind == self@.bag.last(),
    {
        self.bag.peek()
    }

    pub fn score(&self) -> (score: usize)
        ensures
            score == self@.standing.score,
    {
        self.progress.score()
    }

    pub fn level(&self) -> (level: usize)
        ensures
            level == self@.standing.level,
    {
        self.progress.level()
    }

    /// Score, level and the rows counted towards the next level.
    pub fn progress(&self) -> (progress: Progress)
        ensures
            progress@ == self@.standing,
    {
        self.progress
    }

    /// The gravity clock.
    pub fn clock(&self) -> (clock: GravityClock)
        ensures
            clock@ == self@.timing,
    {
        self.clock
    }

    /// Whether the player is speeding the piece up.
    pub fn is_soft_dropping(&self) -> (soft_drop: bool)
        ensures
            soft_drop == self@.soft_drop,
    {
        self.soft_drop
    }

    /// Whether score and row count have room for one more tick.
    pub fn can_tick(&self) -> (ok: bool)
        ensures
            ok == self@.has_room(),
    {
        self.progress.score() <= usize::MAX - MAX_GAIN && self.board.height() as u64 <= (u32::MAX
            - self.progress.lines()) as u64
    }

    /// Moves the game on by one tick: applies the intents, lets `delta`
    /// nanoseconds pass on the gravity clock, places a landed piece and
    /// clears the full rows. A bag that a draw empties is filled with a
    /// freshly shuffled batch.
    pub fn tick(&mut self, intents: &Intents, delta: u64)
        requires
            old(self).wf(),
            old(self)@.has_room(),
        ensures
            final(self).wf(),
            exists|refill: Seq<Piece>|
                is_full_batch(refill) && final(self)@ == old(self)@.ticked(
                    *intents,
                    delta as nat,
                    refill,
                ),
    {
        let _ = self.tick_core(intents, delta, None);
    }

    /// Moves the game on by one tick, as `tick` does, but fills a bag that a
    /// draw empties with the batch that the picks select.
    pub fn tick_with(&mut self, intents: &Intents, delta: u64, picks: &[usize; 6])
        requires
            old(self).wf(),
            old(self)@.has_room(),
        ensures
            final(self).wf(),
            final(self)@ == old(self)@.ticked(*intents, delta as nat, batch_of(picks@)),
    {
        let _ = self.tick_core(intents, delta, Some(picks));
    }

    fn tick_core(&mut self, intents: &Intents, delta: u64, picks: Option<&[usize; 6]>) -> (refill:
        Ghost<Seq<Piece>>)
        requires
            old(self).wf(),
            old(self)@.has_room(),
        ensures
            final(self).wf(),
            is_full_batch(refill@),
            picks matches Some(p) ==> refill@ == batch_of(p@),
            final(self)@ == old(self)@.ticked(*intents, delta as nat, refill@),
    {
        let ghost first_fills = intents.reset && self@.bag.len() == 1;
        let first = self.handle_intents(intents, picks);
        self.apply_gravity(intents, delta);
        let second = self.place_piece(picks);
        self.assess_board();
        let ghost refill = if first_fills {
            first@
        } else {
            second@
        };
        proof {
            lemma_full_batch(first@);
            lemma_tick_keeps_wf(old(self)@, *intents, delta as nat, refill);
        }
        Ghost(refill)
    }

    /// Applies the moves among the intents to the piece.
    fn apply_moves(&mut self, intents: &Intents)
        requires
            old(self).sound(),
        ensures
            final(self)@ == (State { piece: old(self)@.moved(*intents), ..old(self)@ }),
            -8 <= final(self)@.piece.x <= final(self)@.grid.width + 4,
    {
        if intents.rotate_cw {
            self.piece.rotate(Direction::Cw);
        }
        if intents.rotate_ccw {
            self.piece.rotate(Direction::Ccw);
        }
        if intents.move_left {
            self.piece.translate(-1);
        }
        if intents.move_right {
            self.piece.translate(1);
        }
        if intents.force_land {
            self.piece.soft_land();
        }
        if intents.hard_drop {
            self.piece.hard_drop(&self.board);
        }
    }

    /// Restarts the game: vacates the playfield, sets score and level back
    /// and brings in the next piece of the bag.
    fn restart(&mut self, picks: Option<&[usize; 6]>) -> (refill: Ghost<Seq<Piece>>)
        requires
            old(self).sound(),
        ensures
            is_full_batch(refill@),
            picks matches Some(p) ==> refill@ == batch_of(p@),
            final(self)@ == old(self)@.restarted(refill@),
            final(self)@.grid.wf(),
            is_stock(final(self)@.bag),
            final(self)@.standing.wf(),
    {
        self.board.clear();
        self.progress.reset();
        let (kind, at_hand) = self.bag.draw(picks);
        self.piece = CurrentPiece::new(kind, self.board.width(), self.board.height());
        at_hand
    }

    /// Clamps the column of the piece and holds the piece against the
    /// playfield; an obstructed piece gives way to `snapshot`, which lands.
    fn hold_against_board(&mut self, snapshot: CurrentPiece)
        requires
            old(self)@.grid.wf(),
            -4 <= snapshot.position.x <= old(self)@.grid.width,
        ensures
            final(self)@ == (State {
                piece: old(self)@.piece.clamped(old(self)@.grid.width).validated(
                    old(self)@.grid,
                    snapshot@,
                ),
                ..old(self)@
            }),
            -4 <= final(self)@.piece.x <= final(self)@.grid.width,
    {
        self.piece.clamp(self.board.width());
        self.piece.validate(&self.board, snapshot);
    }

    /// Applies the moves among the intents, or restarts the game, and holds
    /// the piece against the playfield.
    fn handle_intents(&mut self, intents: &Intents, picks: Option<&[usize; 6]>) -> (refill: Ghost<
        Seq<Piece>,
    >)
        requires
            old(self).sound(),
        ensures
            final(self).sound(),
            is_full_batch(refill@),
            picks matches Some(p) ==> refill@ == batch_of(p@),
            final(self)@ == old(self)@.handled(*intents, refill@),
    {
        let snapshot: CurrentPiece = self.piece;
        let ghost mut refill: Seq<Piece> = match picks {
            Some(p) => batch_of(p@),
            None => Piece::all(),
        };
        proof {
            lemma_batch_of_is_full(
                match picks {
                    Some(p) => p@,
                    None => Seq::empty(),
                },
            );
        }
        if intents.reset {
            let at_hand = self.restart(picks);
            proof {
                refill = at_hand@;
            }
        } else {
            self.apply_moves(intents);
        }
        self.hold_against_board(snapshot);
        Ghost(refill)
    }

    /// Sets the period of the gravity clock, lets `delta` pass, and pulls the
    /// piece down where a period has ended.
    fn apply_gravity(&mut self, intents: &Intents, delta: u64)
        requires
            old(self).sound(),
        ensures
            final(self).sound(),
            final(self)@ == old(self)@.pulled(*intents, delta as nat),
    {
        if intents.soft_drop_start {
            self.soft_drop = true;
        } else if intents.soft_drop_end {
            self.soft_drop = false;
        }
        let period: u64 = if self.soft_drop {
            MIN_TIME
        } else {
            gravity_interval(self.progress.level())
        };
        self.clock.set_period(period);
        if self.clock.tick(delta) {
            self.piece.fall(&self.board);
        }
    }

    /// Stamps a landed piece into the playfield and brings in the next piece
    /// of the bag.
    fn place_piece(&mut self, picks: Option<&[usize; 6]>) -> (refill: Ghost<Seq<Piece>>)
        requires
            old(self).sound(),
        ensures
            final(self).sound(),
            is_full_batch(refill@),
            picks matches Some(p) ==> refill@ == batch_of(p@),
            final(self)@ == old(self)@.placed(refill@),
    {
        let ghost mut refill: Seq<Piece> = match picks {
            Some(p) => batch_of(p@),
            None => Piece::all(),
        };
        proof {
            lemma_batch_of_is_full(
                match picks {
                    Some(p) => p@,
                    None => Seq::empty(),
                },
            );
        }
        if self.piece.placed {
            self.board.stamp(
                self.piece.piece,
                self.piece.position,
                self.piece.rotation,
                self.piece.get_color(),
            );
            let (kind, at_hand) = self.bag.draw(picks);
            self.piece = CurrentPiece::new(kind, self.board.width(), self.board.height());
            proof {
                refill = at_hand@;
            }
        }
        Ghost(refill)
    }

    /// Clears the full rows and counts them towards score and level.
    fn assess_board(&mut self)
        requires
            old(self).sound(),
            old(self)@.has_room(),
        ensures
            final(self).sound(),
            final(self)@ == old(self)@.assessed(),
    {
        proof {
            lemma_size_is_kept(self@.grid, Piece::I, 0, 0, Rotation::R0, Color::White);
            lemma_gain_is_bounded(self@.standing.level, self@.grid.full_rows());
        }
        let rows: usize = self.board.clear_full_rows();
        self.progress.record_clear(rows);
    }

    /// The next piece of the bag on a small grid of its own: stamped at the
    /// origin, not turned, in white.
    pub fn preview(&self) -> (shown: Board)
        requires
            self.wf(),
        ensures
            shown.wf(),
            shown@ == Grid::empty(PREVIEW_SIDE as nat, PREVIEW_SIDE as nat).stamped(
                self@.bag.last(),
                0,
                0,
                Rotation::R0,
                Color::White,
            ),
    {
        piece_board(self.bag.peek(), Rotation::R0, Color::White)
    }
}

/// A tick leaves a game as it finds it, sound and at rest: no landed piece is
/// left lying, the falling piece overlaps nothing unless it has just come in,
/// and no full row is left standing. The playfield keeps its size.
pub proof fn lemma_tick_keeps_wf(state: State, intents: Intents, delta: nat, refill: Seq<Piece>)
    requires
        state.wf(),
        is_full_batch(refill),
    ensures
        state.ticked(intents, delta, refill).wf(),
        state.ticked(intents, delta, refill).grid.width == state.grid.width,
        state.ticked(intents, delta, refill).grid.height == state.grid.height,
{
    let handled = state.handled(intents, refill);
    let pulled = handled.pulled(intents, delta);
    let placed = pulled.placed(refill);
    let last = placed.assessed();
    lemma_full_batch(refill);
    lemma_size_is_kept(state.grid, Piece::I, 0, 0, Rotation::R0, Color::White);
    lemma_nothing_to_clear(state.grid);
    assert(handled.sound() && (handled.piece.landed || !handled.piece.obstructed_on(handled.grid))
        && (handled.grid.width > 0 ==> forall|y: int|
        0 <= y < handled.grid.height ==> !is_full(#[trigger] handled.grid.rows[y]))) by {
        let next = if intents.reset {
            state.restarted(refill)
        } else {
            State { piece: state.moved(intents), ..state }
        };
        lemma_width_is_extent(next.piece.kind, next.piece.rotation);
        if state.bag.len() > 1 {
            assert(is_stock(state.bag.drop_last()));
        }
    }
    lemma_interval_shrinks(handled.standing.level, handled.standing.level);
    assert(pulled.sound() && pulled.grid == handled.grid && (pulled.piece.landed
        || !pulled.piece.obstructed_on(pulled.grid)));
    lemma_size_is_kept(
        pulled.grid,
        pulled.piece.kind,
        pulled.piece.x,
        pulled.piece.y,
        pulled.piece.rotation,
        color_of(pulled.piece.kind),
    );
    assert(placed.sound() && !placed.piece.landed) by {
        if pulled.bag.len() > 1 {
            assert(is_stock(pulled.bag.drop_last()));
        }
    }
    lemma_size_is_kept(placed.grid, Piece::I, 0, 0, Rotation::R0, Color::White);
    lemma_progress_only_rises(placed.standing, placed.grid.full_rows());
    if placed.grid.width > 0 {
        lemma_cleared_has_no_full_row(placed.grid);
    }
    if !pulled.piece.landed {
        lemma_nothing_to_clear(placed.grid);
    }
}

/// Without a reset among the intents, a tick does not lower the score or
/// the level, and it raises the level by one at most.
pub proof fn lemma_tick_only_raises(state: State, intents: Intents, delta: nat, refill: Seq<Piece>)
    requires
        state.wf(),
        !intents.reset,
    ensures
        state.ticked(intents, delta, refill).standing.score >= state.standing.score,
        state.standing.level <= state.ticked(intents, delta, refill).standing.level
            <= state.standing.level + 1,
{
    let placed = state.handled(intents, refill).pulled(intents, delta).placed(refill);
    lemma_progress_only_rises(placed.standing, placed.grid.full_rows());
}

/// A piece alone on a small grid: stamped at the origin in the given paint.
pub fn piece_board(kind: Piece, rotation: Rotation, color: Color) -> (shown: Board)
    ensures
        shown.wf(),
        shown@ == Grid::empty(PREVIEW_SIDE as nat, PREVIEW_SIDE as nat).stamped(
            kind,
            0,
            0,
            rotation,
            color,
        ),
{
    let mut shown = Board::new(PREVIEW_SIDE, PREVIEW_SIDE);
    shown.stamp(kind, Pos { x: 0, y: 0 }, rotation, color);
    shown
}

} // verus!
