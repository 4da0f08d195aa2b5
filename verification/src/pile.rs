//! Ordered piles of cards. The top of a pile is its last card; cards enter and
//! leave at the top only.

use vstd::prelude::*;
use crate::card::Card;

verus! {

/// The pile `cards` with its top card, if there is one, turned face-up.
pub open spec fn top_revealed(cards: Seq<Card>) -> Seq<Card> {
    if cards.len() == 0 {
        cards
    } else {
        cards.update(cards.len() - 1, cards.last().revealed())
    }
}

/// What is left of a column once the cards from `index` upwards are taken
/// away: the cards below `index`, the new top turned face-up. Taking nothing
/// away (`index` at or past the end) leaves the column as it was.
pub open spec fn without_run(cards: Seq<Card>, index: int) -> Seq<Card> {
    if 0 <= index < cards.len() {
        top_revealed(cards.subrange(0, index))
    } else {
        cards
    }
}

/// The cards of a column from `index` to the top, in order.
pub open spec fn run_from(cards: Seq<Card>, index: int) -> Seq<Card> {
    if 0 <= index < cards.len() {
        cards.subrange(index, cards.len() as int)
    } else {
        Seq::empty()
    }
}

/// A plain pile: the stock, the discard pile or a foundation.
pub struct Pile(pub Vec<Card>);

/// A tableau column. Whenever cards leave it, the card that becomes its top
/// is turned face-up.
pub struct Column(pub Vec<Card>);

impl View for Pile {
    type V = Seq<Card>;

    open spec fn view(&self) -> Seq<Card> {
        self.0@
    }
}

impl View for Column {
    type V = Seq<Card>;

    open spec fn view(&self) -> Seq<Card> {
        self.0@
    }
}

impl Pile {
    pub fn new() -> (pile: Pile)
        ensures
            pile@ == Seq::<Card>::empty(),
    {
        Pile(Vec::new())
    }

    pub fn len(&self) -> (n: usize)
        ensures
            n == self@.len(),
    {
        self.0.len()
    }

    pub fn is_empty(&self) -> (empty: bool)
        ensures
            empty == (self@.len() == 0),
    {
        self.0.len() == 0
    }

    /// Puts `card` on top.
    pub fn push(&mut self, card: Card)
        ensures
            final(self)@ == old(self)@.push(card),
    {
        self.0.push(card);
    }

    /// Takes the top card off, if there is one.
    pub fn pop(&mut self) -> (card: Option<Card>)
        ensures
            old(self)@.len() == 0 ==> card.is_none() && final(self)@ == old(self)@,
            old(self)@.len() > 0 ==> card == Some(old(self)@.last()) && final(self)@ == old(self)@.drop_last(),
    {
        self.0.pop()
    }

    /// The top card, if there is one.
    pub fn peek(&self) -> (card: Option<&Card>)
        ensures
            self@.len() == 0 ==> card.is_none(),
            self@.len() > 0 ==> card == Some(&self@.last()),
    {
        let n: usize = self.0.len();
        if n == 0 {
            None
        } else {
            Some(&self.0[n - 1])
        }
    }
}

impl Column {
    pub fn new() -> (column: Column)
        ensures
            column@ == Seq::<Card>::empty(),
    {
        Column(Vec::new())
    }

    pub fn len(&self) -> (n: usize)
        ensures
            n == self@.len(),
    {
        self.0.len()
    }

    pub fn is_empty(&self) -> (empty: bool)
        ensures
            empty == (self@.len() == 0),
    {
        self.0.len() == 0
    }

    /// Puts `card` on top.
    pub fn push(&mut self, card: Card)
        ensures
            final(self)@ == old(self)@.push(card),
    {
        self.0.push(card);
    }

    /// Puts `cards` on top, keeping their order.
    pub fn extend(&mut self, cards: Vec<Card>)
        ensures
            final(self)@ == old(self)@ + cards@,
    {
        let mut cards = cards;
        self.0.append(&mut cards);
    }

    /// The top card, if there is one.
    pub fn peek(&self) -> (card: Option<&Card>)
        ensures
            self@.len() == 0 ==> card.is_none(),
            self@.len() > 0 ==> card == Some(&self@.last()),
    {
        let n: usize = self.0.len();
        if n == 0 {
            None
        } else {
            Some(&self.0[n - 1])
        }
    }

    /// Turns the top card face-up, if there is one.
    pub fn reveal_top(&mut self)
        ensures
            final(self)@ == top_revealed(old(self)@),
    {
        let n: usize = self.0.len();
        if n > 0 {
            self.0[n - 1].hidden = false;
            assert(self@ =~= top_revealed(old(self)@));
        }
    }

    /// Takes the top card off, if there is one, and turns the card under it
    /// face-up.
    pub fn pop(&mut self) -> (card: Option<Card>)
        ensures
            old(self)@.len() == 0 ==> card.is_none() && final(self)@ == old(self)@,
            old(self)@.len() > 0 ==> card == Some(old(self)@.last()) && final(self)@
                == top_revealed(old(self)@.drop_last()),
            final(self)@.len() > 0 && final(self)@.len() < old(self)@.len() ==> !final(self)@.last().hidden,
    {
        let card = self.0.pop();
        if card.is_some() {
            self.reveal_top();
        }
        card
    }

    /// Takes away the cards from `index` to the top and hands them back in
    /// order; the card that becomes the top is turned face-up. With `index` at
    /// or past the end nothing is taken and nothing changes.
    pub fn drain_from(&mut self, index: usize) -> (run: Vec<Card>)
        ensures
            run@ == run_from(old(self)@, index as int),
            final(self)@ == without_run(old(self)@, index as int),
            final(self)@.len() > 0 && final(self)@.len() < old(self)@.len() ==> !final(self)@.last().hidden,
    {
        if index >= self.0.len() {
            return Vec::new();
        }
        let run = self.0.split_off(index);
        self.reveal_top();
        run
    }
}

} // verus!
