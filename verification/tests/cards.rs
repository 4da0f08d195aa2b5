use solitaire::card::{
    new_deck, Card, ACE, BLACK, CLUBS, DECK_SIZE, DIAMONDS, HEARTS, KING, RED, SPADES,
};

fn card(suit: u8, number: u8) -> Card {
    Card { suit, number, hidden: false, selected: false }
}

#[test]
fn hearts_and_diamonds_are_red() {
    assert_eq!(card(HEARTS, 4).color(), RED);
    assert_eq!(card(DIAMONDS, 9).color(), RED);
}

#[test]
fn spades_and_clubs_are_black() {
    assert_eq!(card(SPADES, 4).color(), BLACK);
    assert_eq!(card(CLUBS, 9).color(), BLACK);
}

#[test]
fn color_ignores_rank_and_flags() {
    for number in ACE..=KING {
        let mut c = card(HEARTS, number);
        c.hidden = true;
        c.selected = true;
        assert_eq!(c.color(), RED);
    }
}

#[test]
fn fresh_deck_has_52_cards() {
    assert_eq!(new_deck().len(), DECK_SIZE);
    assert_eq!(DECK_SIZE, 52);
}

#[test]
fn fresh_deck_lies_face_down_and_unhighlighted() {
    for c in new_deck() {
        assert!(c.hidden);
        assert!(!c.selected);
    }
}

#[test]
fn fresh_deck_holds_every_card_once() {
    let deck = new_deck();
    for suit in 0..4u8 {
        for number in 0..13u8 {
            let count = deck.iter().filter(|c| c.suit == suit && c.number == number).count();
            assert_eq!(count, 1, "suit {} rank {}", suit, number);
        }
    }
}

#[test]
fn fresh_deck_is_ordered_by_rank_then_suit() {
    let deck = new_deck();
    assert_eq!((deck[0].suit, deck[0].number), (SPADES, ACE));
    assert_eq!((deck[1].suit, deck[1].number), (HEARTS, ACE));
    assert_eq!((deck[3].suit, deck[3].number), (DIAMONDS, ACE));
    assert_eq!((deck[4].suit, deck[4].number), (SPADES, 1));
    assert_eq!((deck[51].suit, deck[51].number), (DIAMONDS, KING));
}

#[test]
fn fresh_deck_cards_are_valid() {
    for c in new_deck() {
        assert!(c.is_valid());
    }
}

#[test]
fn cards_outside_the_deck_are_not_valid() {
    assert!(!card(4, 0).is_valid());
    assert!(!card(0, 13).is_valid());
    assert!(card(3, 12).is_valid());
}

#[test]
fn label_is_rank_then_suit() {
    assert_eq!(card(HEARTS, ACE).to_string(), "A\u{2665}");
    assert_eq!(card(SPADES, 9).to_string(), "10\u{2660}");
    assert_eq!(card(CLUBS, 10).to_string(), "J\u{2663}");
    assert_eq!(card(DIAMONDS, 11).to_string(), "Q\u{2666}");
    assert_eq!(card(SPADES, KING).to_string(), "K\u{2660}");
    assert_eq!(card(DIAMONDS, 1).to_string(), "2\u{2666}");
}

#[test]
fn label_of_every_number_rank() {
    let names = ["A", "2", "3", "4", "5", "6", "7", "8", "9", "10", "J", "Q", "K"];
    for number in 0..13u8 {
        let expected = format!("{}\u{2663}", names[number as usize]);
        assert_eq!(card(CLUBS, number).to_string(), expected);
    }
}

#[test]
fn face_down_card_shows_nothing() {
    let mut c = card(HEARTS, ACE);
    c.hidden = true;
    assert_eq!(c.to_string(), "");
}
