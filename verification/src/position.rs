//! Where a click lands, and the input events the engine reacts to.

use vstd::prelude::*;

verus! {

/// The key that clears the pending selection.
pub const CLEAR_KEY: char = 'c';

/// The key that draws a card from the stock.
pub const DRAW_KEY: char = 'd';

/// A location on the table that a click can name. It records the target of
/// the last click and serves as the source of the next move.
#[derive(Clone, Copy, Debug, PartialEq, Eq, Structural)]
pub enum SelectedPos {
    /// Nothing is selected.
    Nothing,
    /// The top of the discard pile.
    Discard,
    /// The foundation with the given index.
    SuitPile(usize),
    /// A card in a column: the column's index, then the card's index in it.
    Column(usize, usize),
}

/// A key, as far as the engine tells keys apart.
#[derive(Clone, Copy, Debug, PartialEq, Eq, Structural)]
pub enum Key {
    Esc,
    Char(char),
    Other,
}

/// One input event.
#[derive(Clone, Copy, Debug, PartialEq, Eq, Structural)]
pub enum InputEvent {
    /// A key was pressed.
    Key(Key),
    /// The left pointer button was released over the given cell.
    LeftRelease { column: u16, row: u16 },
    /// Any other event; the engine ignores it.
    Other,
}

} // verus!
