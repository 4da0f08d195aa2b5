//! Shuffling the deck and laying out the opening table.

use vstd::prelude::*;
use vstd::multiset::{lemma_multiset_empty_len, Multiset};
use rand::seq::SliceRandom;
use crate::board::{
    identities, identity_seq, piles_identities, Board, COLUMN_COUNT, FOUNDATION_COUNT,
};
use crate::card::{canonical_deck, Card, DECK_SIZE};
use crate::integrity::{
    lemma_identities_split, lemma_identities_top_revealed, lemma_rearranged_identities,
};
use crate::pile::top_revealed;

verus! {

/// Number of cards that the deal lays into the columns.
pub const TABLEAU_CARDS: usize = 36;

/// Number of cards that the deal of a full deck leaves for the stock.
pub const STOCK_CARDS: usize = 16;

/// Position in the deck of the first card dealt to column `i`: the columns
/// before it took 1, 2, ..., `i` cards.
pub open spec fn column_start(i: int) -> int {
    i * (i + 1) / 2
}

/// The first `count` columns that the deal of `deck` lays out: column `i`
/// takes the next `i + 1` cards in order, and its top card is turned face-up.
pub open spec fn dealt_columns(deck: Seq<Card>, count: nat) -> Seq<Seq<Card>> {
    Seq::new(
        count,
        |i: int| top_revealed(deck.subrange(column_start(i), column_start(i + 1))),
    )
}

/// `count` empty piles.
pub open spec fn empty_piles(count: nat) -> Seq<Seq<Card>> {
    Seq::new(count, |i: int| Seq::<Card>::empty())
}

/// The opening table that `deck` deals to: the columns take the first 36
/// cards, the stock keeps the rest in order, and the discard pile and the
/// foundations start empty.
pub open spec fn dealt(deck: Seq<Card>) -> Board {
    Board {
        columns: dealt_columns(deck, COLUMN_COUNT as nat),
        stock: deck.subrange(TABLEAU_CARDS as int, deck.len() as int),
        discard: Seq::empty(),
        foundations: empty_piles(FOUNDATION_COUNT as nat),
    }
}

/// The shape of an opening table: column `i` holds `i + 1` cards of which
/// only the top one is face-up, the stock holds the other 16 cards face-down, and the
/// discard pile and the foundations are empty.
pub open spec fn opening_shape(board: Board) -> bool {
    &&& board.wf()
    &&& forall|i: int|
        0 <= i < COLUMN_COUNT ==> (#[trigger] board.columns[i]).len() == i + 1
            && !board.columns[i][i].hidden
    &&& forall|i: int, k: int|
        0 <= k < i < COLUMN_COUNT ==> (#[trigger] board.columns[i][k]).hidden
    &&& board.stock.len() == STOCK_CARDS
    &&& forall|k: int| 0 <= k < board.stock.len() ==> (#[trigger] board.stock[k]).hidden
    &&& board.discard.len() == 0
    &&& forall|n: int| 0 <= n < FOUNDATION_COUNT ==> (#[trigger] board.foundations[n]).len() == 0
}

/// Each column starts where the one before it ends, `i + 1` cards further on.
pub proof fn lemma_column_start_step(i: int)
    requires
        0 <= i,
    ensures
        column_start(0) == 0,
        column_start(i + 1) == column_start(i) + i + 1,
        0 <= column_start(i),
{
    assert((i + 1) * (i + 2) == i * (i + 1) + 2 * (i + 1)) by (nonlinear_arith);
    assert(i * (i + 1) >= 0) by (nonlinear_arith)
        requires
            0 <= i,
    ;
}

/// The eight columns take 36 cards between them.
pub proof fn lemma_column_starts()
    ensures
        column_start(0) == 0,
        column_start(1) == 1,
        column_start(2) == 3,
        column_start(3) == 6,
        column_start(4) == 10,
        column_start(5) == 15,
        column_start(6) == 21,
        column_start(7) == 28,
        column_start(8) == TABLEAU_CARDS,
{
}

/// The first `count` columns hold exactly the first `column_start(count)`
/// cards of the deck.
proof fn lemma_dealt_columns_hold_prefix(deck: Seq<Card>, count: nat)
    requires
        column_start(count as int) <= deck.len(),
    ensures
        piles_identities(dealt_columns(deck, count)) == identities(
            deck.subrange(0, column_start(count as int)),
        ),
    decreases count,
{
    if count == 0 {
        identity_seq(Seq::<Card>::empty()).to_multiset_ensures();
        lemma_multiset_empty_len(identities(Seq::<Card>::empty()));
        assert(deck.subrange(0, 0) =~= Seq::<Card>::empty());
    } else {
        let k = (count - 1) as nat;
        lemma_column_start_step(k as int);
        let start = column_start(k as int);
        let end = column_start(count as int);
        lemma_dealt_columns_hold_prefix(deck, k);
        assert(dealt_columns(deck, count).drop_last() =~= dealt_columns(deck, k));
        lemma_identities_top_revealed(deck.subrange(start, end));
        lemma_identities_split(deck.subrange(0, end), start);
        assert(deck.subrange(0, end).subrange(0, start) =~= deck.subrange(0, start));
        assert(deck.subrange(0, end).subrange(start, end) =~= deck.subrange(start, end));
    }
}

/// Empty piles hold nothing.
proof fn lemma_empty_piles_hold_nothing(count: nat)
    ensures
        piles_identities(empty_piles(count)) == Multiset::<(u8, u8)>::empty(),
    decreases count,
{
    if count > 0 {
        lemma_empty_piles_hold_nothing((count - 1) as nat);
        assert(empty_piles(count).drop_last() =~= empty_piles((count - 1) as nat));
        identity_seq(Seq::<Card>::empty()).to_multiset_ensures();
        lemma_multiset_empty_len(identities(Seq::<Card>::empty()));
        assert(piles_identities(empty_piles(count)) =~= Multiset::<(u8, u8)>::empty());
    }
}

/// Dealing neither makes nor loses cards: the opening table holds the suits
/// and ranks of the deck it was dealt from.
pub proof fn lemma_dealt_holds_deck(deck: Seq<Card>)
    requires
        deck.len() >= TABLEAU_CARDS,
    ensures
        dealt(deck).identities() == identities(deck),
{
    lemma_column_starts();
    lemma_dealt_columns_hold_prefix(deck, COLUMN_COUNT as nat);
    lemma_empty_piles_hold_nothing(FOUNDATION_COUNT as nat);
    lemma_identities_split(deck, TABLEAU_CARDS as int);
    identity_seq(Seq::<Card>::empty()).to_multiset_ensures();
    lemma_multiset_empty_len(identities(Seq::<Card>::empty()));
    assert(dealt(deck).identities() =~= identities(deck));
}

/// A full deck that lies face-down deals to a table of the opening shape.
pub proof fn lemma_dealt_shape(deck: Seq<Card>)
    requires
        deck.len() == DECK_SIZE,
        forall|k: int| 0 <= k < deck.len() ==> (#[trigger] deck[k]).hidden,
    ensures
        opening_shape(dealt(deck)),
{
    lemma_column_starts();
    let board = dealt(deck);
    assert forall|i: int| 0 <= i < COLUMN_COUNT implies (#[trigger] board.columns[i]).len() == i
        + 1 && !board.columns[i][i].hidden by {
        lemma_column_start_step(i);
    }
    assert forall|i: int, k: int| 0 <= k < i < COLUMN_COUNT implies (
    #[trigger] board.columns[i][k]).hidden by {
        lemma_column_start_step(i);
        assert(board.columns[i][k] == deck[column_start(i) + k]);
    }
}

/// Any rearrangement of the fresh deck is a full deck that lies face-down and
/// holds each of the 52 cards.
pub proof fn lemma_shuffled_deck(deck: Seq<Card>)
    requires
        deck.to_multiset() == canonical_deck().to_multiset(),
    ensures
        deck.len() == DECK_SIZE,
        forall|k: int| 0 <= k < deck.len() ==> (#[trigger] deck[k]).hidden,
        identities(deck) == identities(canonical_deck()),
{
    deck.to_multiset_ensures();
    canonical_deck().to_multiset_ensures();
    lemma_rearranged_identities(deck, canonical_deck());
    assert forall|k: int| 0 <= k < deck.len() implies (#[trigger] deck[k]).hidden by {
        assert(deck.contains(deck[k]));
        assert(canonical_deck().to_multiset().count(deck[k]) > 0);
        assert(canonical_deck().contains(deck[k]));
    }
}

/// Hands back the cards of `deck` in a random order.
///
/// Calls `rand::seq::SliceRandom::choose_multiple` on the deck's slice, with
/// the generator of `rand::thread_rng` and the deck's length as the amount.
/// For a slice of up to `u32::MAX` elements the outside function picks that
/// many distinct positions and yields the elements there, so with the full
/// length as amount every card comes back once: the result is a
/// rearrangement of `deck`. Which one is left open.
///
/// A longer slice is left out: there the outside function samples by
/// rejection, which asserts, in a build with debug assertions, that the
/// amount is strictly below the length, and panics when it is not.
/// `thread_rng` panics when the operating system cannot seed it; no argument
/// decides that.
#[verifier::external_body]
pub(crate) fn shuffled(deck: &Vec<Card>) -> (out: Vec<Card>)
    requires
        deck@.len() <= u32::MAX,
    ensures
        out@.to_multiset() == deck@.to_multiset(),
{
    let mut rng = rand::thread_rng();
    deck.choose_multiple(&mut rng, deck.len()).copied().collect()
}

} // verus!
