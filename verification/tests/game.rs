use solitaire::card::{new_deck, Card, CLUBS, DIAMONDS, HEARTS, SPADES};
use solitaire::game::App;
use solitaire::pile::{Column, Pile};
use solitaire::position::{InputEvent, Key, SelectedPos};

fn up(suit: u8, number: u8) -> Card {
    Card { suit, number, hidden: false, selected: false }
}

fn down(suit: u8, number: u8) -> Card {
    Card { suit, number, hidden: true, selected: false }
}

fn empty_table() -> App {
    App {
        rows: [
            Column::new(),
            Column::new(),
            Column::new(),
            Column::new(),
            Column::new(),
            Column::new(),
            Column::new(),
            Column::new(),
        ],
        stock: Pile::new(),
        discard: Pile::new(),
        suit_piles: [Pile::new(), Pile::new(), Pile::new(), Pile::new()],
        selected_pos: SelectedPos::Nothing,
        exit: false,
    }
}

fn snapshot(app: &App) -> (Vec<Vec<Card>>, Vec<Card>, Vec<Card>, Vec<Vec<Card>>) {
    (
        app.rows.iter().map(|c| c.0.clone()).collect(),
        app.stock.0.clone(),
        app.discard.0.clone(),
        app.suit_piles.iter().map(|p| p.0.clone()).collect(),
    )
}

fn identities(app: &App) -> Vec<(u8, u8)> {
    let (rows, stock, discard, suit_piles) = snapshot(app);
    let mut all: Vec<(u8, u8)> = Vec::new();
    for pile in rows.iter().chain(suit_piles.iter()) {
        all.extend(pile.iter().map(|c| (c.suit, c.number)));
    }
    all.extend(stock.iter().map(|c| (c.suit, c.number)));
    all.extend(discard.iter().map(|c| (c.suit, c.number)));
    all.sort();
    all
}

fn full_deck_identities() -> Vec<(u8, u8)> {
    let mut all: Vec<(u8, u8)> = Vec::new();
    for suit in 0..4u8 {
        for number in 0..13u8 {
            all.push((suit, number));
        }
    }
    all.sort();
    all
}

fn click(column: u16, row: u16) -> InputEvent {
    InputEvent::LeftRelease { column, row }
}

fn assert_opening_shape(app: &App) {
    for i in 0..8usize {
        let column = &app.rows[i].0;
        assert_eq!(column.len(), i + 1);
        for k in 0..i {
            assert!(column[k].hidden);
        }
        assert!(!column[i].hidden);
    }
    assert_eq!(app.stock.len(), 16);
    for c in &app.stock.0 {
        assert!(c.hidden);
    }
    assert!(app.discard.is_empty());
    for n in 0..4usize {
        assert!(app.suit_piles[n].is_empty());
    }
}

#[test]
fn deal_shape() {
    let app = App::init();
    assert_opening_shape(&app);
    assert_eq!(app.selected_pos, SelectedPos::Nothing);
    assert!(!app.exit);
}

#[test]
fn deck_integrity_after_init() {
    let app = App::init();
    assert_eq!(identities(&app), full_deck_identities());
}

#[test]
fn init_leaves_no_card_highlighted() {
    let app = App::init();
    let (rows, stock, _, _) = snapshot(&app);
    for c in rows.iter().flatten().chain(stock.iter()) {
        assert!(!c.selected);
    }
}

#[test]
fn init_shuffles() {
    // Dealt in deck order, the table would equal the deal of the fresh deck.
    // Twenty shuffles that all come out in deck order do not happen.
    let unshuffled = snapshot(&App::deal(new_deck()));
    let mut differs = false;
    for _ in 0..20 {
        if snapshot(&App::init()) != unshuffled {
            differs = true;
        }
    }
    assert!(differs);
}

#[test]
fn deal_lays_the_deck_out_in_order() {
    let deck = new_deck();
    let app = App::deal(deck.clone());
    assert_opening_shape(&app);
    let starts = [0usize, 1, 3, 6, 10, 15, 21, 28];
    for i in 0..8usize {
        for k in 0..=i {
            let dealt = app.rows[i].0[k];
            let from_deck = deck[starts[i] + k];
            assert_eq!((dealt.suit, dealt.number), (from_deck.suit, from_deck.number));
        }
    }
    assert_eq!(app.stock.0, deck[36..].to_vec());
    assert_eq!(app.rows[0].0, vec![up(SPADES, 0)]);
    assert_eq!(app.rows[1].0, vec![down(HEARTS, 0), up(CLUBS, 0)]);
    assert_eq!(app.rows[2].0, vec![down(DIAMONDS, 0), down(SPADES, 1), up(HEARTS, 1)]);
}

#[test]
fn deal_of_just_enough_cards_leaves_an_empty_stock() {
    let deck: Vec<Card> = new_deck().into_iter().take(36).collect();
    let app = App::deal(deck);
    assert!(app.stock.is_empty());
    assert_eq!(app.rows[7].len(), 8);
    assert!(!app.rows[7].0[7].hidden);
}

#[test]
fn deal_keeps_cards_that_already_lie_face_up() {
    let mut deck = new_deck();
    deck[1].hidden = false;
    deck[40].hidden = false;
    let app = App::deal(deck);
    assert!(!app.rows[1].0[0].hidden);
    assert!(!app.stock.0[4].hidden);
}

#[test]
fn draw_card_moves_stock_top_face_up_to_discard() {
    let mut app = empty_table();
    app.stock = Pile(vec![down(HEARTS, 1), down(SPADES, 5)]);
    app.discard = Pile(vec![up(CLUBS, 3)]);
    assert!(app.draw_card());
    assert_eq!(app.stock.0, vec![down(HEARTS, 1)]);
    assert_eq!(app.discard.0, vec![up(CLUBS, 3), up(SPADES, 5)]);
}

#[test]
fn draw_card_on_empty_stock_does_nothing() {
    let mut app = empty_table();
    app.discard = Pile(vec![up(CLUBS, 3)]);
    assert!(!app.draw_card());
    assert!(app.stock.is_empty());
    assert_eq!(app.discard.0, vec![up(CLUBS, 3)]);
}

#[test]
fn escape_asks_to_leave() {
    let mut app = App::deal(new_deck());
    let before = snapshot(&app);
    app.selected_pos = SelectedPos::Column(3, 3);
    app.handle_events(InputEvent::Key(Key::Esc));
    assert!(app.exit);
    assert_eq!(snapshot(&app), before);
    assert_eq!(app.selected_pos, SelectedPos::Column(3, 3));
}

#[test]
fn clear_key_forgets_the_selection() {
    let mut app = App::deal(new_deck());
    let before = snapshot(&app);
    app.selected_pos = SelectedPos::Column(3, 3);
    app.handle_events(InputEvent::Key(Key::Char('c')));
    assert_eq!(app.selected_pos, SelectedPos::Nothing);
    assert_eq!(snapshot(&app), before);
    assert!(!app.exit);
}

#[test]
fn draw_key_draws_and_keeps_the_selection() {
    let mut app = App::deal(new_deck());
    app.selected_pos = SelectedPos::Column(3, 3);
    app.handle_events(InputEvent::Key(Key::Char('d')));
    assert_eq!(app.stock.len(), 15);
    assert_eq!(app.discard.0, vec![up(DIAMONDS, 12)]);
    assert_eq!(app.selected_pos, SelectedPos::Column(3, 3));
    assert!(!app.exit);
}

#[test]
fn other_keys_and_events_are_ignored() {
    let events = [
        InputEvent::Key(Key::Char('x')),
        InputEvent::Key(Key::Char('C')),
        InputEvent::Key(Key::Char('D')),
        InputEvent::Key(Key::Other),
        InputEvent::Other,
    ];
    for ev in events {
        let mut app = App::deal(new_deck());
        app.selected_pos = SelectedPos::Discard;
        let before = snapshot(&app);
        app.handle_events(ev);
        assert_eq!(snapshot(&app), before);
        assert_eq!(app.selected_pos, SelectedPos::Discard);
        assert!(!app.exit);
    }
}

#[test]
fn exit_stays_set() {
    let mut app = App::deal(new_deck());
    app.handle_events(InputEvent::Key(Key::Esc));
    app.handle_events(InputEvent::Key(Key::Char('d')));
    app.handle_events(click(0, 0));
    assert!(app.exit);
}

#[test]
fn click_selects_the_clicked_location() {
    let mut app = App::deal(new_deck());
    app.handle_events(click(36, 14));
    assert_eq!(app.selected_pos, SelectedPos::Column(7, 7));
    app.handle_events(click(36, 4));
    assert_eq!(app.selected_pos, SelectedPos::Column(7, 0));
    app.handle_events(click(40, 4));
    assert_eq!(app.selected_pos, SelectedPos::Nothing);
    app.handle_events(click(44, 27));
    assert_eq!(app.selected_pos, SelectedPos::SuitPile(3));
}

#[test]
fn two_clicks_move_a_card_from_discard_to_column() {
    let mut app = empty_table();
    app.rows[2] = Column(vec![up(SPADES, 5)]);
    app.stock = Pile(vec![down(HEARTS, 4)]);
    // The click on the stock draws the four of hearts and selects the discard pile.
    app.handle_events(click(41, 0));
    assert_eq!(app.selected_pos, SelectedPos::Discard);
    assert_eq!(app.discard.0, vec![up(HEARTS, 4)]);
    app.handle_events(click(10, 0));
    assert_eq!(app.rows[2].0, vec![up(SPADES, 5), up(HEARTS, 4)]);
    assert!(app.discard.is_empty());
    assert_eq!(app.selected_pos, SelectedPos::Column(2, 0));
}

#[test]
fn two_clicks_move_a_run_between_columns() {
    let mut app = empty_table();
    app.rows[3] = Column(vec![down(CLUBS, 2), up(CLUBS, 6), up(HEARTS, 5)]);
    app.rows[6] = Column(vec![up(DIAMONDS, 7)]);
    app.handle_events(click(15, 2));
    assert_eq!(app.selected_pos, SelectedPos::Column(3, 1));
    app.handle_events(click(30, 0));
    assert_eq!(app.rows[3].0, vec![up(CLUBS, 2)]);
    assert_eq!(app.rows[6].0, vec![up(DIAMONDS, 7), up(CLUBS, 6), up(HEARTS, 5)]);
    assert_eq!(app.selected_pos, SelectedPos::Column(6, 0));
}

#[test]
fn stock_click_with_discard_selected_only_draws() {
    let mut app = empty_table();
    app.stock = Pile(vec![down(HEARTS, 4), down(HEARTS, 3)]);
    app.handle_events(click(41, 0));
    app.handle_events(click(41, 0));
    assert!(app.stock.is_empty());
    assert_eq!(app.discard.0, vec![up(HEARTS, 3), up(HEARTS, 4)]);
    assert_eq!(app.selected_pos, SelectedPos::Discard);
    app.handle_events(click(41, 0));
    assert_eq!(app.selected_pos, SelectedPos::Nothing);
    assert_eq!(app.discard.len(), 2);
}

#[test]
fn deck_integrity_through_a_game() {
    let mut app = App::init();
    let full = full_deck_identities();
    let mut seed: u32 = 12345;
    for _ in 0..3000 {
        seed = seed.wrapping_mul(1664525).wrapping_add(1013904223);
        let column = ((seed >> 8) % 48) as u16;
        let row = ((seed >> 16) % 34) as u16;
        let ev = match (seed >> 28) % 4 {
            0 => InputEvent::Key(Key::Char('d')),
            1 => InputEvent::Key(Key::Char('c')),
            _ => click(column, row),
        };
        app.handle_events(ev);
        assert_eq!(identities(&app), full);
    }
}

#[test]
fn foundations_stay_single_suited_through_a_game() {
    let mut app = App::init();
    let mut seed: u32 = 987;
    for _ in 0..3000 {
        seed = seed.wrapping_mul(1664525).wrapping_add(1013904223);
        let column = ((seed >> 8) % 48) as u16;
        let row = ((seed >> 16) % 34) as u16;
        let ev = if (seed >> 28) % 3 == 0 { InputEvent::Key(Key::Char('d')) } else { click(column, row) };
        app.handle_events(ev);
        for n in 0..4usize {
            let pile = &app.suit_piles[n].0;
            for c in pile {
                assert_eq!(c.suit, pile[0].suit);
            }
        }
    }
}

#[test]
fn accessors_show_the_table() {
    let mut app = empty_table();
    app.rows[2] = Column(vec![down(CLUBS, 9), up(SPADES, 4)]);
    app.stock = Pile(vec![down(SPADES, 1), down(DIAMONDS, 2)]);
    app.discard = Pile(vec![up(CLUBS, 10), up(HEARTS, 4)]);
    app.suit_piles[1] = Pile(vec![up(HEARTS, 0)]);
    app.selected_pos = SelectedPos::SuitPile(1);
    assert_eq!(app.column(2).map(|c| c.0.clone()), Some(vec![down(CLUBS, 9), up(SPADES, 4)]));
    assert!(app.column(0).map(|c| c.is_empty()).unwrap_or(false));
    assert!(app.column(8).is_none());
    assert_eq!(app.stock_len(), 2);
    assert_eq!(app.stock_top(), Some(&down(DIAMONDS, 2)));
    assert_eq!(app.discard_top(), Some(&up(HEARTS, 4)));
    assert_eq!(app.foundation_top(1), Some(&up(HEARTS, 0)));
    assert_eq!(app.foundation_top(0), None);
    assert_eq!(app.foundation_top(4), None);
    assert_eq!(app.selected(), SelectedPos::SuitPile(1));
}

#[test]
fn accessors_on_empty_piles() {
    let app = empty_table();
    assert_eq!(app.stock_len(), 0);
    assert_eq!(app.stock_top(), None);
    assert_eq!(app.discard_top(), None);
}
