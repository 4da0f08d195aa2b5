//! A Klondike-style solitaire engine: cards, piles, the mapping from pointer
//! coordinates to game locations, and the rules that decide and carry out moves.

pub mod board;
pub mod card;
pub mod deal;
pub mod game;
pub mod integrity;
pub mod moves;
pub mod pile;
pub mod position;
