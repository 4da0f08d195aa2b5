//! Cards are neither made nor lost: whatever the engine does, the table holds
//! the same suits and ranks as before.

use vstd::prelude::*;
use vstd::multiset::{lemma_multiset_empty_len, Multiset};
use vstd::seq_lib::lemma_multiset_commutative;
use crate::board::{identities, identity_seq, piles_identities, Board};
use crate::card::{
    canonical_deck, deck_position, lemma_canonical_deck_exhaustive_unique, Card, DECK_SIZE,
    RANK_COUNT, SUIT_COUNT,
};
use crate::pile::{run_from, top_revealed, without_run};
use crate::position::{InputEvent, SelectedPos};

verus! {

/// Putting a card on a pile adds its suit and rank to what the pile holds.
pub proof fn lemma_identities_push(cards: Seq<Card>, card: Card)
    ensures
        identities(cards.push(card)) == identities(cards).insert(card.identity()),
{
    assert(identity_seq(cards.push(card)) =~= identity_seq(cards).push(card.identity()));
    identity_seq(cards).to_multiset_ensures();
}

/// Stacking one run of cards on another adds up what they hold.
pub proof fn lemma_identities_concat(below: Seq<Card>, above: Seq<Card>)
    ensures
        identities(below + above) == identities(below).add(identities(above)),
{
    assert(identity_seq(below + above) =~= identity_seq(below) + identity_seq(above));
    lemma_multiset_commutative(identity_seq(below), identity_seq(above));
}

/// Cutting a pile in two at `at` parts what it holds between the halves.
pub proof fn lemma_identities_split(cards: Seq<Card>, at: int)
    requires
        0 <= at <= cards.len(),
    ensures
        identities(cards) == identities(cards.subrange(0, at)).add(
            identities(cards.subrange(at, cards.len() as int)),
        ),
{
    assert(cards =~= cards.subrange(0, at) + cards.subrange(at, cards.len() as int));
    lemma_identities_concat(cards.subrange(0, at), cards.subrange(at, cards.len() as int));
}

/// Turning the top card face-up does not change what a pile holds.
pub proof fn lemma_identities_top_revealed(cards: Seq<Card>)
    ensures
        identities(top_revealed(cards)) == identities(cards),
{
    assert(identity_seq(top_revealed(cards)) =~= identity_seq(cards));
}

/// Taking the top card off a pile removes its suit and rank from what the
/// pile holds.
pub proof fn lemma_identities_drop_last(cards: Seq<Card>)
    requires
        cards.len() > 0,
    ensures
        identities(cards) == identities(cards.drop_last()).insert(cards.last().identity()),
{
    assert(cards =~= cards.drop_last().push(cards.last()));
    lemma_identities_push(cards.drop_last(), cards.last());
}

/// Taking a run off a column parts what the column held between the run and
/// what is left.
pub proof fn lemma_identities_run(cards: Seq<Card>, index: int)
    ensures
        identities(cards) == identities(without_run(cards, index)).add(
            identities(run_from(cards, index)),
        ),
{
    if 0 <= index < cards.len() {
        lemma_identities_split(cards, index);
        lemma_identities_top_revealed(cards.subrange(0, index));
    } else {
        let nothing = identities(Seq::<Card>::empty());
        identity_seq(Seq::<Card>::empty()).to_multiset_ensures();
        lemma_multiset_empty_len(nothing);
        assert(identities(cards).add(nothing) =~= identities(cards));
    }
}

/// Replacing one pile among several swaps what that pile held for what the
/// new pile holds.
pub proof fn lemma_piles_identities_update(piles: Seq<Seq<Card>>, i: int, pile: Seq<Card>)
    requires
        0 <= i < piles.len(),
    ensures
        piles_identities(piles.update(i, pile)).add(identities(piles[i])) == piles_identities(
            piles,
        ).add(identities(pile)),
        forall|id: (u8, u8)| #[trigger]
            piles_identities(piles.update(i, pile)).count(id) == piles_identities(piles).count(id)
                - identities(piles[i]).count(id) + identities(pile).count(id),
    decreases piles.len(),
{
    let updated = piles.update(i, pile);
    let before = piles_identities(updated).add(identities(piles[i]));
    let after = piles_identities(piles).add(identities(pile));
    if i == piles.len() - 1 {
        assert(updated.drop_last() =~= piles.drop_last());
        assert(piles_identities(updated).add(identities(piles[i])) =~= piles_identities(
            piles,
        ).add(identities(pile)));
    } else {
        assert(updated.drop_last() =~= piles.drop_last().update(i, pile));
        lemma_piles_identities_update(piles.drop_last(), i, pile);
        assert(piles_identities(updated).add(identities(piles[i])) =~= piles_identities(
            piles.drop_last().update(i, pile),
        ).add(identities(piles[i])).add(identities(piles.last())));
        assert(piles_identities(updated).add(identities(piles[i])) =~= piles_identities(
            piles,
        ).add(identities(pile)));
    }
    assert forall|id: (u8, u8)| #[trigger]
        piles_identities(updated).count(id) == piles_identities(piles).count(id) - identities(
            piles[i],
        ).count(id) + identities(pile).count(id) by {
        assert(before.count(id) == after.count(id));
    }
}

/// Two arrangements of the same cards hold the same suits and ranks.
pub proof fn lemma_rearranged_identities(a: Seq<Card>, b: Seq<Card>)
    requires
        a.to_multiset() == b.to_multiset(),
    ensures
        identities(a) == identities(b),
    decreases a.len(),
{
    a.to_multiset_ensures();
    b.to_multiset_ensures();
    if a.len() == 0 {
        assert(identity_seq(a) =~= identity_seq(b));
    } else {
        let x = a.last();
        let a1 = a.drop_last();
        assert(a[a.len() - 1] == x);
        assert(a.contains(x));
        assert(b.to_multiset().count(x) > 0);
        assert(b.contains(x));
        let j = choose|j: int| 0 <= j < b.len() && b[j] == x;
        let b1 = b.remove(j);
        assert(a1 =~= a.remove(a.len() - 1));
        assert(a1.to_multiset() =~= b1.to_multiset());
        lemma_rearranged_identities(a1, b1);
        lemma_identities_drop_last(a);
        let ids = identity_seq(b);
        ids.to_multiset_ensures();
        assert(ids.remove(j) =~= identity_seq(b1));
        assert(ids[j] == x.identity());
        assert(ids.contains(ids[j]));
        assert(ids.to_multiset() =~= ids.to_multiset().remove(ids[j]).insert(ids[j]));
    }
}

/// Drawing moves a card from the stock to the discard pile: the table holds
/// the same suits and ranks afterwards.
pub proof fn lemma_draw_keeps_cards(board: Board)
    ensures
        board.after_draw().identities() == board.identities(),
{
    if board.stock.len() > 0 {
        lemma_identities_drop_last(board.stock);
        lemma_identities_push(board.discard, board.stock.last().revealed());
        assert(board.after_draw().identities() =~= board.identities());
    }
}

/// A click, whether it draws or not, leaves the table holding the same suits
/// and ranks.
pub proof fn lemma_click_keeps_cards(board: Board, x: usize, y: usize)
    ensures
        board.after_click(x, y).identities() == board.identities(),
{
    lemma_draw_keeps_cards(board);
}

/// An attempted move, accepted or not, leaves the table holding the same
/// suits and ranks: a move only carries cards from one pile to another.
pub proof fn lemma_move_keeps_cards(board: Board, src: SelectedPos, dest: SelectedPos)
    requires
        board.wf(),
    ensures
        board.after_move(src, dest).identities() == board.identities(),
{
    if board.move_allowed(src, dest) {
        let after = board.moved(src, dest);
        match (src, dest) {
            (SelectedPos::Discard, SelectedPos::SuitPile(n)) => {
                let card = board.discard.last();
                lemma_identities_drop_last(board.discard);
                lemma_identities_push(board.foundations[n as int], card);
                lemma_piles_identities_update(
                    board.foundations,
                    n as int,
                    board.foundations[n as int].push(card),
                );
                assert(after.identities() =~= board.identities());
            },
            (SelectedPos::Column(x, y), SelectedPos::SuitPile(n)) => {
                let column = board.columns[x as int];
                let card = column[y as int];
                lemma_identities_run(column, y as int);
                assert(run_from(column, y as int) =~= Seq::<Card>::empty().push(card));
                lemma_identities_push(Seq::<Card>::empty(), card);
                identity_seq(Seq::<Card>::empty()).to_multiset_ensures();
                lemma_multiset_empty_len(identities(Seq::<Card>::empty()));
                lemma_identities_push(board.foundations[n as int], card);
                lemma_piles_identities_update(
                    board.columns,
                    x as int,
                    without_run(column, y as int),
                );
                lemma_piles_identities_update(
                    board.foundations,
                    n as int,
                    board.foundations[n as int].push(card),
                );
                assert(after.identities() =~= board.identities());
            },
            (SelectedPos::Discard, SelectedPos::Column(x, _)) => {
                let card = board.discard.last();
                lemma_identities_drop_last(board.discard);
                lemma_identities_push(board.columns[x as int], card);
                lemma_piles_identities_update(
                    board.columns,
                    x as int,
                    board.columns[x as int].push(card),
                );
                assert(after.identities() =~= board.identities());
            },
            (SelectedPos::SuitPile(n), SelectedPos::Column(x, _)) => {
                let card = board.foundations[n as int].last();
                lemma_identities_drop_last(board.foundations[n as int]);
                lemma_identities_push(board.columns[x as int], card);
                lemma_piles_identities_update(
                    board.foundations,
                    n as int,
                    board.foundations[n as int].drop_last(),
                );
                lemma_piles_identities_update(
                    board.columns,
                    x as int,
                    board.columns[x as int].push(card),
                );
                assert(after.identities() =~= board.identities());
            },
            (SelectedPos::Column(sx, sy), SelectedPos::Column(x, _)) => {
                let source = board.columns[sx as int];
                let target = board.columns[x as int];
                let run = run_from(source, sy as int);
                let emptied = board.columns.update(sx as int, without_run(source, sy as int));
                lemma_identities_run(source, sy as int);
                lemma_identities_concat(target, run);
                lemma_piles_identities_update(
                    board.columns,
                    sx as int,
                    without_run(source, sy as int),
                );
                lemma_piles_identities_update(emptied, x as int, target + run);
                assert(after.identities() =~= board.identities());
            },
            _ => {},
        }
    }
}

/// An input event, whatever it sets off, leaves the table holding the same
/// suits and ranks.
pub proof fn lemma_event_keeps_cards(board: Board, selected: SelectedPos, ev: InputEvent)
    requires
        board.wf(),
    ensures
        board.after_event(selected, ev).wf(),
        board.after_event(selected, ev).identities() == board.identities(),
{
    lemma_draw_keeps_cards(board);
    match ev {
        InputEvent::LeftRelease { column, row } => {
            let clicked = board.after_click(column as usize, row as usize);
            lemma_move_keeps_cards(clicked, selected, board.resolve(column as usize, row as usize));
        },
        _ => {},
    }
}

/// The fresh deck holds every suit and rank of the 52 exactly once, and
/// nothing else.
pub proof fn lemma_full_deck_counts(suit: u8, number: u8)
    ensures
        identities(canonical_deck()).len() == DECK_SIZE,
        identities(canonical_deck()).count((suit, number)) == (if suit < SUIT_COUNT && number
            < RANK_COUNT {
            1nat
        } else {
            0nat
        }),
{
    lemma_canonical_deck_exhaustive_unique();
    let ids = identity_seq(canonical_deck());
    let id = (suit, number);
    ids.to_multiset_ensures();
    assert(ids.no_duplicates()) by {
        assert forall|i: int, j: int| 0 <= i < ids.len() && 0 <= j < ids.len() && i != j implies ids[i]
            != ids[j] by {
            assert(canonical_deck()[i].identity() != canonical_deck()[j].identity());
        }
    }
    ids.lemma_multiset_has_no_duplicates();
    if suit < SUIT_COUNT && number < RANK_COUNT {
        assert(ids[deck_position(id)] == id);
        assert(ids.contains(id));
        assert(ids.to_multiset().count(id) > 0);
    } else {
        if ids.contains(id) {
            let i = choose|i: int| 0 <= i < ids.len() && ids[i] == id;
            assert(canonical_deck()[i].wf());
        }
        assert(ids.to_multiset().count(id) == 0);
    }
}

/// On a complete table every one of the 52 cards lies exactly once, and no
/// other card lies there.
pub proof fn lemma_complete_table_counts(board: Board, suit: u8, number: u8)
    requires
        board.complete(),
    ensures
        board.identities().len() == DECK_SIZE,
        board.identities().count((suit, number)) == (if suit < SUIT_COUNT && number < RANK_COUNT {
            1nat
        } else {
            0nat
        }),
{
    lemma_full_deck_counts(suit, number);
}

/// A complete table stays complete through every input event.
pub proof fn lemma_event_keeps_table_complete(
    board: Board,
    selected: SelectedPos,
    ev: InputEvent,
)
    requires
        board.wf(),
        board.complete(),
    ensures
        board.after_event(selected, ev).complete(),
{
    lemma_event_keeps_cards(board, selected, ev);
}

} // verus!
