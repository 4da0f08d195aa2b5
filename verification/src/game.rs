//! The game itself: the piles, the pending selection, and the operations that
//! input events set off.

use vstd::prelude::*;
use crate::board::{
    column_accepts, foundation_accepts, identities, Board, BAND_HEIGHT, COLUMN_COUNT, FOUNDATION_COUNT,
    LANES_END, LANE_WIDTH, ROW_PITCH, SIDE_BOTTOM, SIDE_END, SIDE_START,
};
use crate::card::{canonical_deck, new_deck, Card, DECK_SIZE, KING};
use crate::deal::{
    column_start, dealt, lemma_column_start_step, lemma_column_starts, lemma_dealt_holds_deck,
    lemma_dealt_shape, lemma_shuffled_deck, opening_shape, shuffled, TABLEAU_CARDS,
};
use crate::integrity::{lemma_draw_keeps_cards, lemma_event_keeps_cards, lemma_move_keeps_cards};
use crate::pile::{top_revealed, Column, Pile};
use crate::position::{InputEvent, Key, SelectedPos, CLEAR_KEY, DRAW_KEY};

verus! {

/// A game of solitaire.
pub struct App {
    /// The tableau columns.
    pub rows: [Column; 8],
    /// The face-down draw pile.
    pub stock: Pile,
    /// The pile of drawn cards.
    pub discard: Pile,
    /// The foundations.
    pub suit_piles: [Pile; 4],
    /// The target of the last click: the source of the next move.
    pub selected_pos: SelectedPos,
    /// Set once the player has asked to leave.
    pub exit: bool,
}

impl View for App {
    type V = Board;

    open spec fn view(&self) -> Board {
        Board {
            columns: Seq::new(COLUMN_COUNT as nat, |i: int| self.rows[i]@),
            stock: self.stock@,
            discard: self.discard@,
            foundations: Seq::new(FOUNDATION_COUNT as nat, |i: int| self.suit_piles[i]@),
        }
    }
}

impl App {
    /// Starts a game: shuffles the fresh deck and deals it.
    ///
    /// Whatever order the shuffle produced, the table has the opening shape
    /// and holds each of the 52 cards exactly once.
    pub fn init() -> (app: App)
        ensures
            exists|deck: Seq<Card>|
                deck.to_multiset() == canonical_deck().to_multiset() && app@ == #[trigger] dealt(
                    deck,
                ),
            opening_shape(app@),
            app@.complete(),
            app.selected_pos == SelectedPos::Nothing,
            !app.exit,
    {
        let deck = new_deck();
        let deck = shuffled(&deck);
        proof {
            lemma_shuffled_deck(deck@);
        }
        App::deal(deck)
    }

    /// Deals `deck` in the order given: column `i` takes the next `i + 1`
    /// cards and shows its top card, and what is left after the eight columns
    /// becomes the stock. Nothing is selected at the start.
    pub fn deal(deck: Vec<Card>) -> (app: App)
        requires
            deck@.len() >= TABLEAU_CARDS,
        ensures
            app@ == dealt(deck@),
            deck@.len() == DECK_SIZE && (forall|k: int|
                0 <= k < deck@.len() ==> (#[trigger] deck@[k]).hidden) ==> opening_shape(app@),
            app@.identities() == identities(deck@),
            app.selected_pos == SelectedPos::Nothing,
            !app.exit,
    {
        let ghost whole = deck@;
        proof {
            lemma_dealt_holds_deck(whole);
            if whole.len() == DECK_SIZE && (forall|k: int|
                0 <= k < whole.len() ==> (#[trigger] whole[k]).hidden) {
                lemma_dealt_shape(whole);
            }
        }
        let mut rest = deck;
        let mut rows: [Column; 8] = [
            Column::new(),
            Column::new(),
            Column::new(),
            Column::new(),
            Column::new(),
            Column::new(),
            Column::new(),
            Column::new(),
        ];
        let mut i: usize = 0;
        proof {
            lemma_column_starts();
            assert(rest@ =~= whole.subrange(column_start(0), whole.len() as int));
        }
        while i < COLUMN_COUNT
            invariant
                i <= COLUMN_COUNT,
                whole.len() >= TABLEAU_CARDS,
                column_start(i as int) <= TABLEAU_CARDS,
                rest@ == whole.subrange(column_start(i as int), whole.len() as int),
                forall|k: int|
                    0 <= k < i ==> (#[trigger] rows[k])@ == top_revealed(
                        whole.subrange(column_start(k), column_start(k + 1)),
                    ),
            decreases COLUMN_COUNT - i,
        {
            proof {
                lemma_column_starts();
                lemma_column_start_step(i as int);
            }
            let tail = rest.split_off(i + 1);
            assert(rest@ =~= whole.subrange(column_start(i as int), column_start(i + 1)));
            assert(tail@ =~= whole.subrange(column_start(i + 1), whole.len() as int));
            let mut column = Column(rest);
            column.reveal_top();
            rows[i] = column;
            rest = tail;
            i = i + 1;
        }
        let app = App {
            rows,
            stock: Pile(rest),
            discard: Pile::new(),
            suit_piles: [Pile::new(), Pile::new(), Pile::new(), Pile::new()],
            selected_pos: SelectedPos::Nothing,
            exit: false,
        };
        proof {
            lemma_column_starts();
            assert(app@ =~~= dealt(whole));
        }
        app
    }

    /// Whether foundation `pile_n` takes `card`. A foundation that does not
    /// exist takes nothing.
    pub fn validate_suit(&self, pile_n: usize, card: &Card) -> (ok: bool)
        ensures
            ok == (pile_n < FOUNDATION_COUNT && foundation_accepts(
                self@.foundations[pile_n as int],
                *card,
            )),
    {
        if pile_n >= FOUNDATION_COUNT {
            return false;
        }
        match self.suit_piles[pile_n].peek() {
            Some(last) => last.suit == card.suit,
            None => true,
        }
    }

    /// Whether column `col_n` takes `card` on top. A column that does not
    /// exist takes nothing.
    pub fn validate_col(&self, col_n: usize, card: &Card) -> (ok: bool)
        ensures
            ok == (col_n < COLUMN_COUNT && column_accepts(self@.columns[col_n as int], *card)),
    {
        if col_n >= COLUMN_COUNT {
            return false;
        }
        match self.rows[col_n].peek() {
            Some(last) => last.color() != card.color() && card.number < u8::MAX && last.number
                == card.number + 1,
            None => card.number == KING,
        }
    }

    /// Tries to move from the pending selection to `dest`. A move that the
    /// rules accept is carried out; any other request changes nothing. The
    /// selection itself stays as it is.
    pub fn handle_move(&mut self, dest: SelectedPos)
        ensures
            final(self)@ == old(self)@.after_move(old(self).selected_pos, dest),
            final(self)@.identities() == old(self)@.identities(),
            final(self).selected_pos == old(self).selected_pos,
            final(self).exit == old(self).exit,
    {
        proof {
            lemma_move_keeps_cards(self@, self.selected_pos, dest);
        }
        let src = self.selected_pos;
        match dest {
            SelectedPos::Nothing | SelectedPos::Discard => {},
            SelectedPos::SuitPile(n) => {
                self.move_to_foundation(src, n);
            },
            SelectedPos::Column(x, _) => {
                self.move_to_column(src, x);
            },
        }
    }

    /// The part of `handle_move` whose destination is foundation `n`.
    fn move_to_foundation(&mut self, src: SelectedPos, n: usize)
        ensures
            final(self)@ == old(self)@.after_move(src, SelectedPos::SuitPile(n)),
            final(self).selected_pos == old(self).selected_pos,
            final(self).exit == old(self).exit,
    {
        if n >= FOUNDATION_COUNT {
            return;
        }
        match src {
            SelectedPos::Discard => {
                let card = match self.discard.peek() {
                    Some(card) => *card,
                    None => { return; },
                };
                if !self.validate_suit(n, &card) {
                    return;
                }
                self.discard.pop();
                self.suit_piles[n].push(card);
                assert(self@ =~~= old(self)@.moved(src, SelectedPos::SuitPile(n)));
            },
            SelectedPos::Column(x, y) => {
                if x >= COLUMN_COUNT {
                    return;
                }
                let len: usize = self.rows[x].len();
                if len == 0 || y != len - 1 {
                    return;
                }
                let card = self.rows[x].0[y];
                if !self.validate_suit(n, &card) {
                    return;
                }
                self.rows[x].pop();
                self.suit_piles[n].push(card);
                assert(old(self)@.columns[x as int].drop_last() =~= old(self)@.columns[x as int].subrange(0, y as int));
                assert(self@ =~~= old(self)@.moved(src, SelectedPos::SuitPile(n)));
            },
            SelectedPos::SuitPile(_) | SelectedPos::Nothing => {},
        }
    }

    /// The part of `handle_move` whose destination is column `x`.
    fn move_to_column(&mut self, src: SelectedPos, x: usize)
        ensures
            final(self)@ == old(self)@.after_move(src, SelectedPos::Column(x, 0)),
            final(self).selected_pos == old(self).selected_pos,
            final(self).exit == old(self).exit,
    {
        if x >= COLUMN_COUNT {
            return;
        }
        match src {
            SelectedPos::Nothing => {},
            SelectedPos::Discard => {
                let card = match self.discard.peek() {
                    Some(card) => *card,
                    None => { return; },
                };
                if !self.validate_col(x, &card) {
                    return;
                }
                self.discard.pop();
                self.rows[x].push(card);
                assert(self@ =~~= old(self)@.moved(src, SelectedPos::Column(x, 0)));
            },
            SelectedPos::SuitPile(n) => {
                if n >= FOUNDATION_COUNT {
                    return;
                }
                let card = match self.suit_piles[n].peek() {
                    Some(card) => *card,
                    None => { return; },
                };
                if !self.validate_col(x, &card) {
                    return;
                }
                self.suit_piles[n].pop();
                self.rows[x].push(card);
                assert(self@ =~~= old(self)@.moved(src, SelectedPos::Column(x, 0)));
            },
            SelectedPos::Column(sx, sy) => {
                if sx >= COLUMN_COUNT || sx == x {
                    return;
                }
                if sy >= self.rows[sx].len() {
                    return;
                }
                let card = self.rows[sx].0[sy];
                if !self.validate_col(x, &card) {
                    return;
                }
                let run = self.rows[sx].drain_from(sy);
                self.rows[x].extend(run);
                assert(self@ =~~= old(self)@.moved(src, SelectedPos::Column(x, 0)));
            },
        }
    }

    /// Draws: moves the top card of the stock, face-up, onto the discard
    /// pile. Says whether there was a card to draw.
    pub fn draw_card(&mut self) -> (drawn: bool)
        ensures
            drawn == (old(self)@.stock.len() > 0),
            final(self)@ == old(self)@.after_draw(),
            final(self)@.identities() == old(self)@.identities(),
            final(self).selected_pos == old(self).selected_pos,
            final(self).exit == old(self).exit,
    {
        proof {
            lemma_draw_keeps_cards(self@);
        }
        match self.stock.pop() {
            Some(card) => {
                let mut card = card;
                card.hidden = false;
                self.discard.push(card);
                assert(self@ =~~= old(self)@.after_draw());
                true
            },
            None => {
                assert(self@ =~~= old(self)@.after_draw());
                false
            },
        }
    }

    /// Finds the location that a click on cell `(x, y)` names. A click in
    /// the stock band also draws a card, then and there.
    pub fn get_selected_pos(&mut self, x: usize, y: usize) -> (pos: SelectedPos)
        ensures
            pos == old(self)@.resolve(x, y),
            final(self)@ == old(self)@.after_click(x, y),
            final(self)@.identities() == old(self)@.identities(),
            final(self).selected_pos == old(self).selected_pos,
            final(self).exit == old(self).exit,
    {
        proof {
            lemma_draw_keeps_cards(self@);
        }
        if x < LANES_END {
            let lane: usize = x / LANE_WIDTH;
            let row: usize = y / ROW_PITCH;
            let len: usize = self.rows[lane].len();
            if len == 0 {
                return SelectedPos::Column(lane, 0);
            }
            if row >= len {
                return SelectedPos::Column(lane, len - 1);
            }
            if self.rows[lane].0[row].hidden {
                return SelectedPos::Column(lane, 0);
            }
            SelectedPos::Column(lane, row)
        } else if SIDE_START <= x && x < SIDE_END {
            if y < BAND_HEIGHT {
                if self.draw_card() {
                    SelectedPos::Discard
                } else {
                    SelectedPos::Nothing
                }
            } else if y < 2 * BAND_HEIGHT {
                if self.discard.is_empty() {
                    SelectedPos::Nothing
                } else {
                    SelectedPos::Discard
                }
            } else if y < SIDE_BOTTOM {
                SelectedPos::SuitPile(y / BAND_HEIGHT - 2)
            } else {
                SelectedPos::Nothing
            }
        } else {
            SelectedPos::Nothing
        }
    }

    /// Reacts to one input event.
    ///
    /// `Esc` asks to leave, `CLEAR_KEY` forgets the pending selection and
    /// `DRAW_KEY` draws a card. A release of the left button is a click: the
    /// cell is resolved (which draws, in the stock band), the move from the
    /// pending selection to the clicked location is tried, and the clicked
    /// location becomes the pending selection. Anything else is ignored.
    pub fn handle_events(&mut self, ev: InputEvent)
        ensures
            final(self)@ == old(self)@.after_event(old(self).selected_pos, ev),
            final(self).selected_pos == old(self)@.selection_after_event(
                old(self).selected_pos,
                ev,
            ),
            final(self).exit == (old(self).exit || ev == InputEvent::Key(Key::Esc)),
            final(self)@.identities() == old(self)@.identities(),
    {
        proof {
            lemma_event_keeps_cards(self@, self.selected_pos, ev);
        }
        match ev {
            InputEvent::Key(key) => {
                match key {
                    Key::Esc => {
                        self.exit = true;
                    },
                    Key::Char(c) => {
                        if c == CLEAR_KEY {
                            self.selected_pos = SelectedPos::Nothing;
                        } else if c == DRAW_KEY {
                            self.draw_card();
                        }
                    },
                    Key::Other => {},
                }
            },
            InputEvent::LeftRelease { column, row } => {
                let new_pos = self.get_selected_pos(column as usize, row as usize);
                self.handle_move(new_pos);
                self.selected_pos = new_pos;
            },
            InputEvent::Other => {},
        }
    }

    /// The column with index `x`, bottom card first, if there is such a column.
    pub fn column(&self, x: usize) -> (column: Option<&Column>)
        ensures
            x < COLUMN_COUNT ==> column == Some(&self.rows[x as int]),
            x >= COLUMN_COUNT ==> column.is_none(),
    {
        if x < COLUMN_COUNT {
            Some(&self.rows[x])
        } else {
            None
        }
    }

    /// Number of cards left in the stock.
    pub fn stock_len(&self) -> (n: usize)
        ensures
            n == self@.stock.len(),
    {
        self.stock.len()
    }

    /// The top card of the stock, if the stock is not empty.
    pub fn stock_top(&self) -> (card: Option<&Card>)
        ensures
            self@.stock.len() == 0 ==> card.is_none(),
            self@.stock.len() > 0 ==> card == Some(&self@.stock.last()),
    {
        self.stock.peek()
    }

    /// The top card of the discard pile, if the pile is not empty.
    pub fn discard_top(&self) -> (card: Option<&Card>)
        ensures
            self@.discard.len() == 0 ==> card.is_none(),
            self@.discard.len() > 0 ==> card == Some(&self@.discard.last()),
    {
        self.discard.peek()
    }

    /// The top card of foundation `n`, if there is such a foundation and it
    /// is not empty.
    pub fn foundation_top(&self, n: usize) -> (card: Option<&Card>)
        ensures
            n < FOUNDATION_COUNT && self@.foundations[n as int].len() > 0 ==> card == Some(
                &self@.foundations[n as int].last(),
            ),
            n >= FOUNDATION_COUNT || self@.foundations[n as int].len() == 0 ==> card.is_none(),
    {
        if n < FOUNDATION_COUNT {
            self.suit_piles[n].peek()
        } else {
            None
        }
    }

    /// The pending selection.
    pub fn selected(&self) -> (pos: SelectedPos)
        ensures
            pos == self.selected_pos,
    {
        self.selected_pos
    }
}

} // verus!
