//! Playing cards and the 52-card deck.

use vstd::prelude::*;
use vstd::string::StringExecFns;

verus! {

/// Number of suits.
pub const SUIT_COUNT: u8 = 4;

/// Number of ranks in each suit.
pub const RANK_COUNT: u8 = 13;

/// Number of cards in a full deck.
pub const DECK_SIZE: usize = 52;

pub const SPADES: u8 = 0;

pub const HEARTS: u8 = 1;

pub const CLUBS: u8 = 2;

pub const DIAMONDS: u8 = 3;

/// Rank number of the ace, the lowest rank.
pub const ACE: u8 = 0;

/// Rank number of the king, the highest rank.
pub const KING: u8 = 12;

/// Colour of spades and clubs.
pub const BLACK: u8 = 0;

/// Colour of hearts and diamonds.
pub const RED: u8 = 1;

/// A playing card. `suit` and `number` are its identity and never change;
/// `hidden` (face-down) and `selected` (highlighted) are flags that play toggles.
#[derive(Clone, Copy, Debug, PartialEq, Eq, Structural)]
pub struct Card {
    /// `SPADES`, `HEARTS`, `CLUBS` or `DIAMONDS`.
    pub suit: u8,
    /// Rank, counted from `ACE` (0) up to `KING` (12).
    pub number: u8,
    /// Whether the card lies face-down.
    pub hidden: bool,
    /// Whether the card is highlighted.
    pub selected: bool,
}

impl Card {
    /// A card is well formed when its suit and rank name one of the 52 cards.
    pub open spec fn wf(self) -> bool {
        self.suit < SUIT_COUNT && self.number < RANK_COUNT
    }

    /// The colour of a card: `RED` for hearts and diamonds, `BLACK` otherwise.
    pub open spec fn spec_color(&self) -> u8 {
        self.suit % 2
    }

    /// What tells one card from another: suit and rank, without the flags.
    pub open spec fn identity(self) -> (u8, u8) {
        (self.suit, self.number)
    }

    /// The same card lying face-up.
    pub open spec fn revealed(self) -> Card {
        Card { hidden: false, ..self }
    }

    /// The face-down, unhighlighted card at position `i` of the fresh deck:
    /// ranks ascend, and within a rank the suits follow each other.
    pub open spec fn canonical(i: int) -> Card {
        Card { suit: (i % 4) as u8, number: (i / 4) as u8, hidden: true, selected: false }
    }

    #[verifier::when_used_as_spec(spec_color)]
    pub fn color(&self) -> (c: u8)
        ensures
            c == self.spec_color(),
            c == RED <==> self.suit % 2 == 1,
            c == BLACK || c == RED,
    {
        self.suit % 2
    }

    /// The text on the face of a card: its rank, then its suit. A face-down
    /// card shows nothing.
    pub open spec fn label(self) -> Seq<char> {
        if self.hidden {
            Seq::empty()
        } else {
            rank_name(self.number) + suit_glyph(self.suit)
        }
    }

    /// Writes out what the card shows: nothing while it is face-down, else
    /// its rank followed by its suit.
    pub fn to_string(&self) -> (text: String)
        requires
            self.hidden || self.wf(),
        ensures
            text@ == self.label(),
    {
        if self.hidden {
            return String::new();
        }
        let rank: &'static str = rank_str(self.number);
        let suit: &'static str = suit_str(self.suit);
        let mut text = String::from_str(rank);
        text.append(suit);
        text
    }

    /// Whether suit and rank name one of the 52 cards.
    pub fn is_valid(&self) -> (ok: bool)
        ensures
            ok == self.wf(),
    {
        self.suit < SUIT_COUNT && self.number < RANK_COUNT
    }
}

/// The name of a rank: `A` for the ace, the number for 2 to 10, then `J`,
/// `Q` and `K`.
pub open spec fn rank_name(number: u8) -> Seq<char> {
    if number == 0 {
        "A"@
    } else if number == 1 {
        "2"@
    } else if number == 2 {
        "3"@
    } else if number == 3 {
        "4"@
    } else if number == 4 {
        "5"@
    } else if number == 5 {
        "6"@
    } else if number == 6 {
        "7"@
    } else if number == 7 {
        "8"@
    } else if number == 8 {
        "9"@
    } else if number == 9 {
        "10"@
    } else if number == 10 {
        "J"@
    } else if number == 11 {
        "Q"@
    } else {
        "K"@
    }
}

/// The sign of a suit.
pub open spec fn suit_glyph(suit: u8) -> Seq<char> {
    if suit == SPADES {
        "\u{2660}"@
    } else if suit == HEARTS {
        "\u{2665}"@
    } else if suit == CLUBS {
        "\u{2663}"@
    } else {
        "\u{2666}"@
    }
}

fn rank_str(number: u8) -> (name: &'static str)
    requires
        number < RANK_COUNT,
    ensures
        name@ == rank_name(number),
{
    if number == 0 {
        "A"
    } else if number == 1 {
        "2"
    } else if number == 2 {
        "3"
    } else if number == 3 {
        "4"
    } else if number == 4 {
        "5"
    } else if number == 5 {
        "6"
    } else if number == 6 {
        "7"
    } else if number == 7 {
        "8"
    } else if number == 8 {
        "9"
    } else if number == 9 {
        "10"
    } else if number == 10 {
        "J"
    } else if number == 11 {
        "Q"
    } else {
        "K"
    }
}

fn suit_str(suit: u8) -> (glyph: &'static str)
    requires
        suit < SUIT_COUNT,
    ensures
        glyph@ == suit_glyph(suit),
{
    if suit == SPADES {
        "\u{2660}"
    } else if suit == HEARTS {
        "\u{2665}"
    } else if suit == CLUBS {
        "\u{2663}"
    } else {
        "\u{2666}"
    }
}

/// The fresh deck as a sequence: the 52 canonical cards in order.
pub open spec fn canonical_deck() -> Seq<Card> {
    Seq::new(DECK_SIZE as nat, |i: int| Card::canonical(i))
}

/// Position in the fresh deck of the card with the given suit and rank.
pub open spec fn deck_position(id: (u8, u8)) -> int {
    id.1 * 4 + id.0
}

/// Every well-formed suit and rank occurs in the fresh deck at exactly one
/// position, and nothing else occurs there.
pub proof fn lemma_canonical_deck_exhaustive_unique()
    ensures
        canonical_deck().len() == 52,
        forall|i: int| 0 <= i < 52 ==> (#[trigger] canonical_deck()[i]).wf(),
        forall|i: int|
            0 <= i < 52 ==> deck_position((#[trigger] canonical_deck()[i]).identity()) == i,
        forall|s: u8, n: u8|
            s < SUIT_COUNT && n < RANK_COUNT ==> {
                &&& 0 <= #[trigger] deck_position((s, n)) < 52
                &&& canonical_deck()[deck_position((s, n))].identity() == (s, n)
            },
        forall|i: int, j: int|
            0 <= i < 52 && 0 <= j < 52 && i != j ==> (#[trigger] canonical_deck()[i]).identity()
                != (#[trigger] canonical_deck()[j]).identity(),
{
    assert forall|i: int, j: int| 0 <= i < 52 && 0 <= j < 52 && i != j implies (
    #[trigger] canonical_deck()[i]).identity() != (#[trigger] canonical_deck()[j]).identity() by {
        assert(deck_position(canonical_deck()[i].identity()) == i);
        assert(deck_position(canonical_deck()[j].identity()) == j);
    }
}

/// Builds the fresh deck: all 52 cards, face-down and unhighlighted.
pub fn new_deck() -> (deck: Vec<Card>)
    ensures
        deck@ == canonical_deck(),
{
    let mut deck: Vec<Card> = Vec::new();
    let mut i: u8 = 0;
    while i < 52
        invariant
            i <= 52,
            deck@.len() == i,
            forall|k: int| 0 <= k < i ==> deck@[k] == Card::canonical(k),
        decreases 52 - i,
    {
        deck.push(Card { suit: i % 4, number: i / 4, hidden: true, selected: false });
        i = i + 1;
    }
    assert(deck@ =~= canonical_deck());
    deck
}

} // verus!
