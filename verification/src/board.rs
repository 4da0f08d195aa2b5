//! The table as mathematics: what the piles hold, what a click means, which
//! moves the rules accept and what the table looks like after one.

use vstd::prelude::*;
use vstd::multiset::Multiset;
use crate::card::{Card, KING};
use crate::pile::{top_revealed, without_run, run_from};
use crate::position::{InputEvent, Key, SelectedPos, CLEAR_KEY, DRAW_KEY};

verus! {

/// Number of tableau columns.
pub const COLUMN_COUNT: usize = 8;

/// Number of foundations.
pub const FOUNDATION_COUNT: usize = 4;

/// Width of one column lane, in cells.
pub const LANE_WIDTH: usize = 5;

/// Rows that each card of a column takes up before the next one covers it.
pub const ROW_PITCH: usize = 2;

/// First cell to the right of the column lanes. It is a gap: a click there
/// names nothing.
pub const LANES_END: usize = 40;

/// First cell of the side lane, which stacks the stock, the discard pile
/// and the foundations.
pub const SIDE_START: usize = 41;

/// First cell past the side lane.
pub const SIDE_END: usize = 46;

/// Height of each band of the side lane, in rows.
pub const BAND_HEIGHT: usize = 5;

/// First row past the last foundation band.
pub const SIDE_BOTTOM: usize = 30;

/// The piles of a game, each from bottom to top.
#[verifier::ext_equal]
pub struct Board {
    pub columns: Seq<Seq<Card>>,
    pub stock: Seq<Card>,
    pub discard: Seq<Card>,
    pub foundations: Seq<Seq<Card>>,
}

/// The foundation rule: a foundation takes `card` when it is empty or its top
/// card has `card`'s suit.
pub open spec fn foundation_accepts(pile: Seq<Card>, card: Card) -> bool {
    pile.len() == 0 || pile.last().suit == card.suit
}

/// The column rule: an empty column takes a king; any other column takes a
/// card of the colour opposite to its top card's and one rank below it.
pub open spec fn column_accepts(column: Seq<Card>, card: Card) -> bool {
    if column.len() == 0 {
        card.number == KING
    } else {
        column.last().spec_color() != card.spec_color() && column.last().number == card.number
            + 1
    }
}

/// Whether the cell `(x, y)` lies in the stock band, where a click draws.
pub open spec fn in_stock_band(x: usize, y: usize) -> bool {
    SIDE_START <= x < SIDE_END && y < BAND_HEIGHT
}

/// The suit and rank of each card of `cards`, in order.
pub open spec fn identity_seq(cards: Seq<Card>) -> Seq<(u8, u8)> {
    Seq::new(cards.len(), |i: int| cards[i].identity())
}

/// The suits and ranks that `cards` holds, each as often as it occurs.
pub open spec fn identities(cards: Seq<Card>) -> Multiset<(u8, u8)> {
    identity_seq(cards).to_multiset()
}

/// The suits and ranks held by all of `piles` together.
pub open spec fn piles_identities(piles: Seq<Seq<Card>>) -> Multiset<(u8, u8)>
    decreases piles.len(),
{
    if piles.len() == 0 {
        Multiset::empty()
    } else {
        piles_identities(piles.drop_last()).add(identities(piles.last()))
    }
}

/// All cards of a pile share one suit.
pub open spec fn single_suited(pile: Seq<Card>) -> bool {
    forall|i: int, j: int|
        0 <= i < pile.len() && 0 <= j < pile.len() ==> (#[trigger] pile[i]).suit == (
        #[trigger] pile[j]).suit
}

impl Board {
    /// A board has eight columns and four foundations.
    pub open spec fn wf(self) -> bool {
        self.columns.len() == COLUMN_COUNT && self.foundations.len() == FOUNDATION_COUNT
    }

    /// The location that a click on cell `(x, y)` names.
    ///
    /// In a column lane the row picks a card: a row past the last card picks
    /// the last card, a face-down card sends the click to the bottom of the
    /// column, and an empty column answers with its index 0. In the side lane
    /// the stock band answers with the discard pile, which the card drawn by
    /// the click lands on, unless the stock is empty.
    pub open spec fn resolve(self, x: usize, y: usize) -> SelectedPos {
        if x < LANES_END {
            let lane = x / LANE_WIDTH;
            let row = y / ROW_PITCH;
            let cards = self.columns[lane as int];
            if cards.len() == 0 {
                SelectedPos::Column(lane, 0)
            } else if row >= cards.len() {
                SelectedPos::Column(lane, (cards.len() - 1) as usize)
            } else if cards[row as int].hidden {
                SelectedPos::Column(lane, 0)
            } else {
                SelectedPos::Column(lane, row)
            }
        } else if SIDE_START <= x < SIDE_END {
            if y < BAND_HEIGHT {
                if self.stock.len() > 0 {
                    SelectedPos::Discard
                } else {
                    SelectedPos::Nothing
                }
            } else if y < 2 * BAND_HEIGHT {
                if self.discard.len() > 0 {
                    SelectedPos::Discard
                } else {
                    SelectedPos::Nothing
                }
            } else if y < SIDE_BOTTOM {
                SelectedPos::SuitPile((y / BAND_HEIGHT - 2) as usize)
            } else {
                SelectedPos::Nothing
            }
        } else {
            SelectedPos::Nothing
        }
    }

    /// The board after drawing: the top of the stock moves, face-up, onto the
    /// discard pile. An empty stock leaves the board as it is.
    pub open spec fn after_draw(self) -> Board {
        if self.stock.len() > 0 {
            Board {
                stock: self.stock.drop_last(),
                discard: self.discard.push(self.stock.last().revealed()),
                ..self
            }
        } else {
            self
        }
    }

    /// The board after a click on cell `(x, y)`: a click in the stock band
    /// draws, any other click changes nothing.
    pub open spec fn after_click(self, x: usize, y: usize) -> Board {
        if in_stock_band(x, y) {
            self.after_draw()
        } else {
            self
        }
    }

    /// Whether the rules accept the move from `src` to `dest`.
    pub open spec fn move_allowed(self, src: SelectedPos, dest: SelectedPos) -> bool {
        match dest {
            SelectedPos::Nothing | SelectedPos::Discard => false,
            SelectedPos::SuitPile(n) => n < FOUNDATION_COUNT && match src {
                SelectedPos::Discard => self.discard.len() > 0 && foundation_accepts(
                    self.foundations[n as int],
                    self.discard.last(),
                ),
                SelectedPos::Column(x, y) => x < COLUMN_COUNT && self.columns[x as int].len() > 0
                    && y == self.columns[x as int].len() - 1 && foundation_accepts(
                    self.foundations[n as int],
                    self.columns[x as int][y as int],
                ),
                SelectedPos::SuitPile(_) | SelectedPos::Nothing => false,
            },
            SelectedPos::Column(x, _) => x < COLUMN_COUNT && match src {
                SelectedPos::Nothing => false,
                SelectedPos::Discard => self.discard.len() > 0 && column_accepts(
                    self.columns[x as int],
                    self.discard.last(),
                ),
                SelectedPos::SuitPile(n) => n < FOUNDATION_COUNT && self.foundations[n as int].len()
                    > 0 && column_accepts(self.columns[x as int], self.foundations[n as int].last()),
                SelectedPos::Column(sx, sy) => sx < COLUMN_COUNT && sx != x && sy
                    < self.columns[sx as int].len() && column_accepts(
                    self.columns[x as int],
                    self.columns[sx as int][sy as int],
                ),
            },
        }
    }

    /// The board after an accepted move from `src` to `dest`.
    pub open spec fn moved(self, src: SelectedPos, dest: SelectedPos) -> Board {
        match (src, dest) {
            (SelectedPos::Discard, SelectedPos::SuitPile(n)) => Board {
                discard: self.discard.drop_last(),
                foundations: self.foundations.update(
                    n as int,
                    self.foundations[n as int].push(self.discard.last()),
                ),
                ..self
            },
            (SelectedPos::Column(x, y), SelectedPos::SuitPile(n)) => Board {
                columns: self.columns.update(
                    x as int,
                    without_run(self.columns[x as int], y as int),
                ),
                foundations: self.foundations.update(
                    n as int,
                    self.foundations[n as int].push(self.columns[x as int][y as int]),
                ),
                ..self
            },
            (SelectedPos::Discard, SelectedPos::Column(x, _)) => Board {
                discard: self.discard.drop_last(),
                columns: self.columns.update(
                    x as int,
                    self.columns[x as int].push(self.discard.last()),
                ),
                ..self
            },
            (SelectedPos::SuitPile(n), SelectedPos::Column(x, _)) => Board {
                foundations: self.foundations.update(
                    n as int,
                    self.foundations[n as int].drop_last(),
                ),
                columns: self.columns.update(
                    x as int,
                    self.columns[x as int].push(self.foundations[n as int].last()),
                ),
                ..self
            },
            (SelectedPos::Column(sx, sy), SelectedPos::Column(x, _)) => Board {
                columns: self.columns.update(
                    sx as int,
                    without_run(self.columns[sx as int], sy as int),
                ).update(
                    x as int,
                    self.columns[x as int] + run_from(self.columns[sx as int], sy as int),
                ),
                ..self
            },
            _ => self,
        }
    }

    /// The board after an attempt to move from `src` to `dest`: the move is
    /// carried out when the rules accept it, and nothing changes otherwise.
    pub open spec fn after_move(self, src: SelectedPos, dest: SelectedPos) -> Board {
        if self.move_allowed(src, dest) {
            self.moved(src, dest)
        } else {
            self
        }
    }

    /// The board after one input event: the draw key draws, a click is
    /// resolved (which draws, in the stock band) and the move from the pending
    /// selection to the clicked location is attempted, and nothing else
    /// touches the piles.
    pub open spec fn after_event(self, selected: SelectedPos, ev: InputEvent) -> Board {
        match ev {
            InputEvent::Key(Key::Char(c)) if c == DRAW_KEY => self.after_draw(),
            InputEvent::LeftRelease { column, row } => self.after_click(
                column as usize,
                row as usize,
            ).after_move(selected, self.resolve(column as usize, row as usize)),
            _ => self,
        }
    }

    /// The pending selection after one input event: the clear key forgets
    /// it, a click replaces it by the clicked location, and nothing else
    /// touches it.
    pub open spec fn selection_after_event(
        self,
        selected: SelectedPos,
        ev: InputEvent,
    ) -> SelectedPos {
        match ev {
            InputEvent::Key(Key::Char(c)) if c == CLEAR_KEY => SelectedPos::Nothing,
            InputEvent::LeftRelease { column, row } => self.resolve(column as usize, row as usize),
            _ => selected,
        }
    }

    /// The suits and ranks on the whole table, each as often as it occurs.
    pub open spec fn identities(self) -> Multiset<(u8, u8)> {
        piles_identities(self.columns).add(identities(self.stock)).add(
            identities(self.discard),
        ).add(piles_identities(self.foundations))
    }

    /// The table holds each of the 52 cards exactly once and nothing else.
    pub open spec fn complete(self) -> bool {
        self.identities() == identities(crate::card::canonical_deck())
    }

    /// Every foundation holds cards of one suit only.
    pub open spec fn foundations_single_suited(self) -> bool {
        forall|n: int|
            0 <= n < self.foundations.len() ==> single_suited(#[trigger] self.foundations[n])
    }
}

} // verus!
