//! The randomizer: a bag that deals the seven kinds in shuffled batches.

use crate::chance::random_below;
use crate::piece::{Piece, PIECE_COUNT};
use vstd::prelude::*;
use vstd::seq_lib::{to_multiset_build, to_multiset_contains, to_multiset_len, to_multiset_update};

verus! {

/// A batch is full when it holds each of the seven kinds exactly once, in any
/// order.
pub open spec fn is_full_batch(batch: Seq<Piece>) -> bool {
    batch.to_multiset() == Piece::all().to_multiset()
}

/// The sequence with the items at `i` and `j` exchanged.
pub open spec fn swapped(s: Seq<Piece>, i: int, j: int) -> Seq<Piece> {
    s.update(i, s[j]).update(j, s[i])
}

/// The shuffle that the picks select, applied to the first `n` places of
/// `s`: from the last of them down to the second, place `i` is exchanged with
/// place `picks[i - 1] mod (i + 1)`.
pub open spec fn arranged(s: Seq<Piece>, picks: Seq<usize>, n: int) -> Seq<Piece>
    decreases n,
{
    if n <= 1 {
        s
    } else {
        arranged(swapped(s, n - 1, picks[n - 2] as int % n), picks, n - 1)
    }
}

/// The batch that the picks select: the seven kinds in their fixed order,
/// shuffled.
pub open spec fn batch_of(picks: Seq<usize>) -> Seq<Piece> {
    arranged(Piece::all(), picks, PIECE_COUNT as int)
}

/// What may be left of a full batch: between one and seven pieces, none of
/// them twice.
pub open spec fn is_stock(pieces: Seq<Piece>) -> bool {
    &&& 1 <= pieces.len() <= PIECE_COUNT
    &&& pieces.no_duplicates()
}

/// What a draw leaves in the bag when `refill` is the batch that fills a bag
/// left empty.
pub open spec fn after_draw(before: Seq<Piece>, refill: Seq<Piece>) -> Seq<Piece> {
    if before.len() > 1 {
        before.drop_last()
    } else {
        refill
    }
}

/// What a draw does to the bag: the last piece leaves, and a bag that would
/// be left empty holds a full batch instead.
pub open spec fn drawn(before: Seq<Piece>, piece: Piece, after: Seq<Piece>) -> bool {
    &&& before.len() > 0
    &&& piece == before.last()
    &&& if before.len() > 1 {
        after == before.drop_last()
    } else {
        is_full_batch(after)
    }
}

/// The pieces still to be dealt. The next one to leave is the last.
#[derive(Debug)]
pub struct Bag {
    pieces: Vec<Piece>,
}

impl View for Bag {
    type V = Seq<Piece>;

    closed spec fn view(&self) -> Seq<Piece> {
        self.pieces@
    }
}

/// Exchanging two items keeps what the sequence holds.
proof fn lemma_swapped_same_items(s: Seq<Piece>, i: int, j: int)
    requires
        0 <= i < s.len(),
        0 <= j < s.len(),
    ensures
        swapped(s, i, j).len() == s.len(),
        swapped(s, i, j).to_multiset() == s.to_multiset(),
{
    broadcast use vstd::multiset::group_multiset_axioms;

    let t = s.update(i, s[j]);
    to_multiset_update(s, i, s[j]);
    to_multiset_update(t, j, s[i]);
    to_multiset_contains(s, s[i]);
    to_multiset_contains(s, s[j]);
    assert(swapped(s, i, j).to_multiset() =~= s.to_multiset());
}

/// A shuffle keeps what the sequence holds.
pub proof fn lemma_arranged_same_items(s: Seq<Piece>, picks: Seq<usize>, n: int)
    requires
        n <= s.len(),
    ensures
        arranged(s, picks, n).len() == s.len(),
        arranged(s, picks, n).to_multiset() == s.to_multiset(),
    decreases n,
{
    if n > 1 {
        let j = picks[n - 2] as int % n;
        lemma_swapped_same_items(s, n - 1, j);
        lemma_arranged_same_items(swapped(s, n - 1, j), picks, n - 1);
    }
}

/// Whatever the picks are, the batch that they select is full; so is the
/// batch of the seven kinds in their fixed order.
pub proof fn lemma_batch_of_is_full(picks: Seq<usize>)
    ensures
        is_full_batch(batch_of(picks)),
        is_full_batch(Piece::all()),
{
    lemma_arranged_same_items(Piece::all(), picks, 7);
}

/// A full batch has seven pieces, holds every kind, and holds none twice.
pub proof fn lemma_full_batch(batch: Seq<Piece>)
    requires
        is_full_batch(batch),
    ensures
        batch.len() == PIECE_COUNT,
        batch.no_duplicates(),
        forall|kind: Piece| batch.contains(kind),
        forall|kind: Piece| batch.to_multiset().count(kind) == 1,
{
    broadcast use vstd::multiset::group_multiset_axioms;

    let all = Piece::all();
    let e = Seq::<Piece>::empty();
    assert(all =~= e.push(Piece::I).push(Piece::O).push(Piece::T).push(Piece::S).push(
        Piece::Z,
    ).push(Piece::J).push(Piece::L));
    to_multiset_build(e, Piece::I);
    to_multiset_build(e.push(Piece::I), Piece::O);
    to_multiset_build(e.push(Piece::I).push(Piece::O), Piece::T);
    to_multiset_build(e.push(Piece::I).push(Piece::O).push(Piece::T), Piece::S);
    to_multiset_build(e.push(Piece::I).push(Piece::O).push(Piece::T).push(Piece::S), Piece::Z);
    to_multiset_build(
        e.push(Piece::I).push(Piece::O).push(Piece::T).push(Piece::S).push(Piece::Z),
        Piece::J,
    );
    to_multiset_build(
        e.push(Piece::I).push(Piece::O).push(Piece::T).push(Piece::S).push(Piece::Z).push(
            Piece::J,
        ),
        Piece::L,
    );
    assert forall|kind: Piece| all.to_multiset().count(kind) == 1 by {
        to_multiset_contains(e, kind);
        assert(!e.contains(kind));
    }
    to_multiset_len(batch);
    to_multiset_len(all);
    batch.lemma_multiset_has_no_duplicates_conv();
    assert forall|kind: Piece| batch.contains(kind) by {
        to_multiset_contains(batch, kind);
    }
}

/// After `n` draws from a full bag, with `n` below seven, the bag holds the
/// first `7 - n` pieces of the batch, and the pieces went out from the back of
/// the batch.
proof fn lemma_draws_take_from_the_back(bags: Seq<Seq<Piece>>, pieces: Seq<Piece>, n: int)
    requires
        0 <= n < 7,
        bags.len() > n,
        pieces.len() >= n,
        bags[0].len() == 7,
        forall|i: int| 0 <= i < n ==> drawn(#[trigger] bags[i], pieces[i], bags[i + 1]),
    ensures
        bags[n] == bags[0].take(7 - n),
        forall|i: int| 0 <= i < n ==> #[trigger] pieces[i] == bags[0][6 - i],
    decreases n,
{
    if n == 0 {
        assert(bags[0] =~= bags[0].take(7));
    } else {
        lemma_draws_take_from_the_back(bags, pieces, n - 1);
        assert(drawn(bags[n - 1], pieces[n - 1], bags[n]));
        assert(bags[n] =~= bags[0].take(7 - n));
    }
}

/// Seven draws from a full bag deal each of the seven kinds exactly once:
/// the pieces come out in the reverse order of the batch. The seventh draw
/// leaves a full bag again, so that an eighth draw finds a piece, and so does
/// every later one.
pub proof fn lemma_seven_draws_deal_every_kind(bags: Seq<Seq<Piece>>, pieces: Seq<Piece>)
    requires
        bags.len() == 8,
        pieces.len() == 7,
        is_full_batch(bags[0]),
        forall|i: int| 0 <= i < 7 ==> drawn(#[trigger] bags[i], pieces[i], bags[i + 1]),
    ensures
        pieces == bags[0].reverse(),
        is_full_batch(pieces),
        forall|kind: Piece| pieces.to_multiset().count(kind) == 1,
        is_full_batch(bags[7]),
        forall|i: int| 0 <= i <= 7 ==> is_stock(#[trigger] bags[i]),
{
    lemma_full_batch(bags[0]);
    lemma_draws_take_from_the_back(bags, pieces, 6);
    assert(drawn(bags[6], pieces[6], bags[7]));
    assert(bags[6].len() == 1);
    assert(pieces[6] == bags[0][0]);
    assert(pieces =~= bags[0].reverse());
    bags[0].lemma_reverse_to_multiset();
    lemma_full_batch(pieces);
    lemma_full_batch(bags[7]);
    assert forall|i: int| 0 <= i <= 7 implies is_stock(#[trigger] bags[i]) by {
        if i < 7 {
            lemma_draws_take_from_the_back(bags, pieces, i);
        }
    }
}

/// The batch that the picks select. Whatever the picks are, the batch is
/// full.
pub fn shuffled_batch(picks: &[usize; 6]) -> (batch: Vec<Piece>)
    ensures
        batch@ == batch_of(picks@),
        is_full_batch(batch@),
{
    let mut batch: Vec<Piece> = Vec::new();
    batch.push(Piece::I);
    batch.push(Piece::O);
    batch.push(Piece::T);
    batch.push(Piece::S);
    batch.push(Piece::Z);
    batch.push(Piece::J);
    batch.push(Piece::L);
    assert(batch@ =~= Piece::all());
    let mut i: usize = 6;
    while i > 0
        invariant
            i <= 6,
            batch@.len() == 7,
            arranged(batch@, picks@, i + 1) == batch_of(picks@),
        decreases i,
    {
        let j: usize = picks[i - 1] % (i + 1);
        let at_i: Piece = batch[i];
        let at_j: Piece = batch[j];
        let ghost before = batch@;
        batch[i] = at_j;
        batch[j] = at_i;
        assert(batch@ =~= swapped(before, i as int, j as int));
        i -= 1;
    }
    proof {
        lemma_arranged_same_items(Piece::all(), picks@, 7);
    }
    batch
}

impl Bag {
    /// The bag holds between one and seven pieces, none of them twice: what
    /// is left of one full batch.
    pub open spec fn wf(&self) -> bool {
        is_stock(self@)
    }

    /// A bag with one full batch, freshly shuffled.
    pub fn new() -> (bag: Bag)
        ensures
            bag.wf(),
            is_full_batch(bag@),
            bag@.len() == PIECE_COUNT,
    {
        let mut bag = Bag { pieces: Vec::new() };
        bag.fill_bag();
        bag
    }

    /// A bag with the batch that the picks select.
    pub fn from_picks(picks: &[usize; 6]) -> (bag: Bag)
        ensures
            bag.wf(),
            bag@ == batch_of(picks@),
            is_full_batch(bag@),
            bag@.len() == PIECE_COUNT,
    {
        let bag = Bag { pieces: shuffled_batch(picks) };
        proof {
            lemma_full_batch(bag@);
        }
        bag
    }

    /// Replaces what the bag holds by a full batch, freshly shuffled: six
    /// random picks, one for each exchange of the shuffle, select the batch.
    pub fn fill_bag(&mut self)
        ensures
            final(self).wf(),
            is_full_batch(final(self)@),
            final(self)@.len() == PIECE_COUNT,
    {
        let mut picks: [usize; 6] = [0, 0, 0, 0, 0, 0];
        let mut i: usize = 0;
        while i < 6
            invariant
                i <= 6,
            decreases 6 - i,
        {
            picks[i] = random_below(i + 2);
            i += 1;
        }
        self.pieces = shuffled_batch(&picks);
        proof {
            lemma_full_batch(self@);
        }
    }

    /// Takes the next piece out of the bag. A bag that this leaves empty is
    /// filled again at once, so the bag always knows its next piece.
    pub fn next_piece(&mut self) -> (piece: Piece)
        requires
            old(self).wf(),
        ensures
            final(self).wf(),
            drawn(old(self)@, piece, final(self)@),
    {
        let (piece, _) = self.draw(None);
        piece
    }

    /// Takes the next piece out of the bag, and fills a bag that this leaves
    /// empty with the batch that the picks select.
    pub fn next_piece_with(&mut self, picks: &[usize; 6]) -> (piece: Piece)
        requires
            old(self).wf(),
        ensures
            final(self).wf(),
            piece == old(self)@.last(),
            final(self)@ == after_draw(old(self)@, batch_of(picks@)),
            drawn(old(self)@, piece, final(self)@),
    {
        let (piece, _) = self.draw(Some(picks));
        piece
    }

    /// Takes the next piece out of the bag and fills a bag that this leaves
    /// empty: with the batch that the picks select, or without picks with a
    /// freshly shuffled one. The second result is the batch that the bag had
    /// at hand for filling.
    pub(crate) fn draw(&mut self, picks: Option<&[usize; 6]>) -> (out: (Piece, Ghost<Seq<Piece>>))
        requires
            old(self).wf(),
        ensures
            final(self).wf(),
            out.0 == old(self)@.last(),
            is_full_batch(out.1@),
            picks matches Some(p) ==> out.1@ == batch_of(p@),
            final(self)@ == after_draw(old(self)@, out.1@),
            drawn(old(self)@, out.0, final(self)@),
    {
        let piece: Piece = self.take_last();
        let ghost mut refill: Seq<Piece> = Piece::all();
        match picks {
            Some(p) => {
                proof {
                    lemma_arranged_same_items(Piece::all(), p@, 7);
                    refill = batch_of(p@);
                }
                if self.pieces.is_empty() {
                    self.pieces = shuffled_batch(p);
                }
            },
            None => {
                if self.pieces.is_empty() {
                    self.fill_bag();
                    proof {
                        refill = self@;
                    }
                }
            },
        }
        proof {
            lemma_full_batch(refill);
            if old(self)@.len() > 1 {
                assert(self@ == old(self)@.drop_last());
            }
        }
        (piece, Ghost(refill))
    }

    /// The piece that the next draw will return. The bag keeps it.
    pub fn peek(&self) -> (piece: Piece)
        requires
            self.wf(),
        ensures
            piece == self@.last(),
    {
        self.pieces[self.pieces.len() - 1]
    }

    /// The number of pieces left before the bag is filled again.
    pub fn len(&self) -> (n: usize)
        ensures
            n == self@.len(),
    {
        self.pieces.len()
    }

    /// Removes the last piece, which may leave the bag empty.
    fn take_last(&mut self) -> (piece: Piece)
        requires
            old(self).wf(),
        ensures
            piece == old(self)@.last(),
            final(self)@ == old(self)@.drop_last(),
            final(self)@.no_duplicates(),
    {
        let last: usize = self.pieces.len() - 1;
        let piece: Piece = self.pieces[last];
        self.pieces.truncate(last);
        assert(self@ =~= old(self)@.drop_last());
        piece
    }
}

} // verus!
