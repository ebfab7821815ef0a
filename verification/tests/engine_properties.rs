use solitaire::{Card, CardSymbol, CardValue, GameAction, GameData, GameTables};

fn card(value: CardValue, symbol: CardSymbol, is_face_up: bool) -> Card {
    Card { value, symbol, is_face_up }
}

fn empty_game() -> GameData {
    GameData {
        tables: GameTables {
            playing_table: vec![
                Vec::new(),
                Vec::new(),
                Vec::new(),
                Vec::new(),
                Vec::new(),
                Vec::new(),
                Vec::new(),
            ],
            foundation_table: vec![Vec::new(), Vec::new(), Vec::new(), Vec::new()],
            extra_table: Vec::new(),
            drawn_table: Vec::new(),
        },
        action_history: Vec::new(),
    }
}

fn sample_game() -> GameData {
    let mut game = empty_game();
    game.tables.playing_table[0] = vec![
        card(CardValue::Seven, CardSymbol::Hearts, false),
        card(CardValue::Ace, CardSymbol::Diamonds, true),
    ];
    game.tables.playing_table[1] = vec![card(CardValue::Two, CardSymbol::Spades, true)];
    game.tables.playing_table[2] = vec![card(CardValue::King, CardSymbol::Clubs, true)];
    game.tables.playing_table[4] = vec![
        card(CardValue::Queen, CardSymbol::Hearts, true),
        card(CardValue::Jack, CardSymbol::Spades, true),
        card(CardValue::Ten, CardSymbol::Diamonds, true),
    ];
    game.tables.foundation_table[0] = vec![card(CardValue::Nine, CardSymbol::Diamonds, true)];
    game.tables.extra_table = vec![
        card(CardValue::Six, CardSymbol::Clubs, false),
        card(CardValue::Five, CardSymbol::Spades, false),
    ];
    game.tables.drawn_table = vec![card(CardValue::Four, CardSymbol::Hearts, true)];
    game
}

fn cards_equal(a: &Card, b: &Card) -> bool {
    a.value == b.value && a.symbol == b.symbol && a.is_face_up == b.is_face_up
}

fn piles_equal(a: &Vec<Card>, b: &Vec<Card>) -> bool {
    a.len() == b.len() && a.iter().zip(b.iter()).all(|(x, y)| cards_equal(x, y))
}

fn tables_equal(a: &GameTables, b: &GameTables) -> bool {
    (0..7).all(|i| piles_equal(&a.playing_table[i], &b.playing_table[i]))
        && (0..4).all(|i| piles_equal(&a.foundation_table[i], &b.foundation_table[i]))
        && piles_equal(&a.extra_table, &b.extra_table)
        && piles_equal(&a.drawn_table, &b.drawn_table)
}

#[test]
fn deal_partitions_the_full_deck() {
    let game = GameData::new(500);
    let mut seen: Vec<(CardValue, CardSymbol)> = Vec::new();
    for pile in game.tables.playing_table.iter() {
        for c in pile.iter() {
            seen.push((c.value, c.symbol));
        }
    }
    for pile in game.tables.foundation_table.iter() {
        for c in pile.iter() {
            seen.push((c.value, c.symbol));
        }
    }
    for c in game.tables.extra_table.iter() {
        seen.push((c.value, c.symbol));
    }
    for c in game.tables.drawn_table.iter() {
        seen.push((c.value, c.symbol));
    }
    assert_eq!(seen.len(), 52);
    for i in 0..seen.len() {
        for j in 0..i {
            assert_ne!(seen[i], seen[j], "a card appears twice after the deal");
        }
    }
}

#[test]
fn deal_shape_holds_for_any_shuffle_count() {
    for times in [-17, 0, 1, 313] {
        let game = GameData::new(times);
        for p in 0..7 {
            assert_eq!(game.tables.playing_table[p].len(), p + 1);
            for k in 0..p {
                assert!(!game.tables.playing_table[p][k].is_face_up);
            }
            assert!(game.tables.playing_table[p][p].is_face_up);
        }
        assert_eq!(game.tables.extra_table.len(), 24);
        assert!(game.tables.extra_table.iter().all(|c| !c.is_face_up));
        assert_eq!(game.tables.drawn_table.len(), 0);
        assert!(game.tables.foundation_table.iter().all(|f| f.is_empty()));
    }
}

#[test]
fn draw_on_empty_stock_and_waste_is_a_successful_noop() {
    let mut game = empty_game();
    game.do_(GameAction::DrawCard).expect("drawing on an empty table must succeed");
    assert!(tables_equal(&game.tables, &empty_game().tables));
    assert_eq!(game.action_history.len(), 1);
}

#[test]
fn recycle_reverses_waste_and_turns_it_face_down() {
    let mut game = empty_game();
    game.tables.drawn_table = vec![
        card(CardValue::Three, CardSymbol::Clubs, true),
        card(CardValue::Eight, CardSymbol::Hearts, true),
        card(CardValue::Jack, CardSymbol::Diamonds, true),
    ];
    game.do_(GameAction::DrawCard).expect("recycling must succeed");
    assert_eq!(game.tables.drawn_table.len(), 0);
    assert_eq!(game.tables.extra_table.len(), 3);
    assert_eq!(game.tables.extra_table[0].value, CardValue::Jack);
    assert_eq!(game.tables.extra_table[1].value, CardValue::Eight);
    assert_eq!(game.tables.extra_table[2].value, CardValue::Three);
    assert!(game.tables.extra_table.iter().all(|c| !c.is_face_up));
}

#[test]
fn undo_restores_draw() {
    let mut game = sample_game();
    game.do_(GameAction::DrawCard).expect("drawing from the stock must succeed");
    game.undo();
    assert!(tables_equal(&game.tables, &sample_game().tables));
    assert!(game.action_history.is_empty());
}

#[test]
fn undo_restores_recycle() {
    let mut game = sample_game();
    game.do_(GameAction::DrawCard).expect("This should work");
    game.do_(GameAction::DrawCard).expect("This should work");
    let mut reference = sample_game();
    reference.do_(GameAction::DrawCard).expect("This should work");
    reference.do_(GameAction::DrawCard).expect("This should work");
    // the stock is now empty and the waste holds three cards: recycle
    game.do_(GameAction::DrawCard).expect("recycling must succeed");
    game.undo();
    assert!(tables_equal(&game.tables, &reference.tables));
}

#[test]
fn undo_restores_foundation_move() {
    let mut game = sample_game();
    game.do_(GameAction::MoveToFoundationFromPlaying(4, 0))
        .expect("the Ten of Diamonds goes on the Nine of Diamonds");
    game.undo();
    assert!(tables_equal(&game.tables, &sample_game().tables));
}

#[test]
fn undo_restores_waste_to_foundation_move() {
    let mut game = sample_game();
    game.tables.drawn_table = vec![card(CardValue::Ten, CardSymbol::Diamonds, true)];
    game.do_(GameAction::MoveToFoundationFromDrawn(0))
        .expect("the Ten of Diamonds goes on the Nine of Diamonds");
    game.undo();
    let mut reference = sample_game();
    reference.tables.drawn_table = vec![card(CardValue::Ten, CardSymbol::Diamonds, true)];
    assert!(tables_equal(&game.tables, &reference.tables));
}

#[test]
fn undo_reverses_the_show_composite_in_one_call() {
    let mut game = sample_game();
    game.do_(GameAction::MoveToPlayingFromPlaying(0, 1, 1, 1))
        .expect("the Ace of Diamonds goes on the Two of Spades");
    game.do_(GameAction::ShowCard(0))
        .expect("the uncovered Seven of Hearts can be revealed");
    assert!(game.tables.playing_table[0][0].is_face_up);
    game.undo();
    assert!(tables_equal(&game.tables, &sample_game().tables));
    assert!(game.action_history.is_empty());
}

#[test]
fn undo_on_empty_history_is_a_noop() {
    let mut game = sample_game();
    game.undo();
    assert!(tables_equal(&game.tables, &sample_game().tables));
}

#[test]
fn king_moves_to_empty_pile_and_queen_does_not() {
    let mut game = sample_game();
    game.do_(GameAction::MoveToPlayingFromPlaying(2, 0, 3, 0))
        .expect("a King moves onto an empty pile");
    assert_eq!(game.tables.playing_table[3].len(), 1);
    assert_eq!(game.tables.playing_table[3][0].value, CardValue::King);
    assert_eq!(game.tables.playing_table[2].len(), 0);

    let mut other = sample_game();
    let outcome = other.do_(GameAction::MoveToPlayingFromPlaying(4, 0, 3, 0));
    assert!(outcome.is_err(), "a Queen must not move onto an empty pile");
    assert!(tables_equal(&other.tables, &sample_game().tables));
}

#[test]
fn foundation_accepts_successor_and_rejects_duplicate_and_wrong_suit() {
    let mut game = sample_game();
    game.tables.playing_table[5] = vec![card(CardValue::Ten, CardSymbol::Diamonds, true)];
    game.do_(GameAction::MoveToFoundationFromPlaying(5, 0))
        .expect("the same-suit successor is accepted");
    assert_eq!(game.tables.foundation_table[0].len(), 2);

    let mut duplicate = sample_game();
    duplicate.tables.playing_table[5] = vec![card(CardValue::Nine, CardSymbol::Hearts, true)];
    assert!(duplicate.do_(GameAction::MoveToFoundationFromPlaying(5, 0)).is_err());
    let mut reference = sample_game();
    reference.tables.playing_table[5] = vec![card(CardValue::Nine, CardSymbol::Hearts, true)];
    assert!(tables_equal(&duplicate.tables, &reference.tables));

    let mut wrong_suit = sample_game();
    wrong_suit.tables.playing_table[5] = vec![card(CardValue::Ten, CardSymbol::Hearts, true)];
    assert!(wrong_suit.do_(GameAction::MoveToFoundationFromPlaying(5, 0)).is_err());
    reference = sample_game();
    reference.tables.playing_table[5] = vec![card(CardValue::Ten, CardSymbol::Hearts, true)];
    assert!(tables_equal(&wrong_suit.tables, &reference.tables));

    let mut same_rank = sample_game();
    same_rank.tables.playing_table[5] = vec![card(CardValue::Nine, CardSymbol::Diamonds, true)];
    assert!(same_rank.do_(GameAction::MoveToFoundationFromPlaying(5, 0)).is_err());
    reference = sample_game();
    reference.tables.playing_table[5] = vec![card(CardValue::Nine, CardSymbol::Diamonds, true)];
    assert!(tables_equal(&same_rank.tables, &reference.tables));
}

#[test]
fn run_move_relocates_three_cards_in_order() {
    let mut game = sample_game();
    game.do_(GameAction::MoveToPlayingFromPlaying(4, 0, 2, 1))
        .expect("the Queen-Jack-Ten run goes onto the King");
    assert_eq!(game.tables.playing_table[4].len(), 0);
    assert_eq!(game.tables.playing_table[2].len(), 4);
    assert_eq!(game.tables.playing_table[2][0].value, CardValue::King);
    assert_eq!(game.tables.playing_table[2][1].value, CardValue::Queen);
    assert_eq!(game.tables.playing_table[2][2].value, CardValue::Jack);
    assert_eq!(game.tables.playing_table[2][3].value, CardValue::Ten);
}

#[test]
fn run_move_from_middle_position_keeps_prefix() {
    let mut game = sample_game();
    // move Jack and Ten (positions 1 and up) from pile 4; the Queen stays behind
    game.tables.playing_table[3] = vec![card(CardValue::Queen, CardSymbol::Diamonds, true)];
    game.do_(GameAction::MoveToPlayingFromPlaying(4, 1, 3, 1))
        .expect("the Jack-Ten run goes onto the red Queen");
    assert_eq!(game.tables.playing_table[4].len(), 1);
    assert_eq!(game.tables.playing_table[4][0].value, CardValue::Queen);
    assert_eq!(game.tables.playing_table[3].len(), 3);
    assert_eq!(game.tables.playing_table[3][1].value, CardValue::Jack);
    assert_eq!(game.tables.playing_table[3][2].value, CardValue::Ten);
}

#[test]
fn rejected_requests_report_errors_and_mutate_nothing() {
    let mut game = sample_game();
    let reference = sample_game();

    assert!(game.do_(GameAction::MoveToPlayingFromPlaying(1, 0, 1, 1)).is_err(),
        "same source and destination pile");
    assert!(game.do_(GameAction::MoveToPlayingFromPlaying(4, 0, 1, 0)).is_err(),
        "destination row is not the pile's end");
    assert!(game.do_(GameAction::MoveToPlayingFromPlaying(4, 9, 1, 1)).is_err(),
        "source row out of bounds");
    assert!(game.do_(GameAction::MoveToPlayingFromPlaying(0, 0, 1, 1)).is_err(),
        "source card is face down");
    assert!(game.do_(GameAction::MoveToFoundationFromPlaying(3, 1)).is_err(),
        "source pile is empty");
    assert!(game.do_(GameAction::MoveToFoundationFromPlaying(1, 1)).is_err(),
        "only an Ace starts a foundation");
    assert!(game.do_(GameAction::MoveToDrawFromFoundation(1)).is_err(),
        "source foundation is empty");
    assert!(game.do_(GameAction::MoveToDrawnFromPlaying(3)).is_err(),
        "source pile is empty");
    assert!(game.do_(GameAction::MoveToPlayingFromFoundation(1, 0)).is_err(),
        "the Nine of Diamonds does not go on the Two of Spades");
    assert!(game.do_(GameAction::ShowCard(1)).is_err(),
        "the card is already visible");
    assert!(game.do_(GameAction::HideCard(3)).is_err(),
        "an empty pile has no card to hide");

    assert!(tables_equal(&game.tables, &reference.tables));
    assert!(game.action_history.is_empty());
}

#[test]
fn foundation_to_tableau_accepts_any_card_on_an_empty_pile() {
    // the engine's deliberate asymmetry: no King requirement on this path
    let mut game = sample_game();
    game.do_(GameAction::MoveToPlayingFromFoundation(3, 0))
        .expect("an empty tableau pile takes any card from a foundation");
    assert_eq!(game.tables.playing_table[3].len(), 1);
    assert_eq!(game.tables.playing_table[3][0].value, CardValue::Nine);
    assert_eq!(game.tables.foundation_table[0].len(), 0);
}

#[test]
fn command_on_stock_cell_draws() {
    let mut game = sample_game();
    solitaire::process_command(&mut game, 6, 0);
    assert_eq!(game.tables.extra_table.len(), 1);
    assert_eq!(game.tables.drawn_table.len(), 2);
    assert_eq!(game.tables.drawn_table[1].value, CardValue::Five);
    assert!(game.tables.drawn_table[1].is_face_up);
}

#[test]
fn command_on_waste_cell_prefers_foundations() {
    let mut game = sample_game();
    game.tables.drawn_table = vec![card(CardValue::Ten, CardSymbol::Diamonds, true)];
    solitaire::process_command(&mut game, 5, 0);
    assert_eq!(game.tables.foundation_table[0].len(), 2);
    assert_eq!(game.tables.foundation_table[0][1].value, CardValue::Ten);
    assert!(game.tables.drawn_table.is_empty());
}

#[test]
fn command_on_waste_cell_falls_back_to_tableau() {
    let mut game = sample_game();
    // the Four of Hearts fits no foundation; it fits no pile but the Five...
    game.tables.playing_table[5] = vec![card(CardValue::Five, CardSymbol::Spades, true)];
    solitaire::process_command(&mut game, 5, 0);
    assert!(game.tables.drawn_table.is_empty());
    assert_eq!(game.tables.playing_table[5].len(), 2);
    assert_eq!(game.tables.playing_table[5][1].value, CardValue::Four);
}

#[test]
fn command_on_tableau_cell_moves_and_reveals() {
    let mut game = sample_game();
    // the Ace at the end of pile 0 goes to the first empty foundation, and
    // the Seven of Hearts beneath it is revealed
    solitaire::process_command(&mut game, 0, 2);
    assert_eq!(game.tables.foundation_table[1].len(), 1);
    assert_eq!(game.tables.foundation_table[1][0].value, CardValue::Ace);
    assert_eq!(game.tables.playing_table[0].len(), 1);
    assert!(game.tables.playing_table[0][0].is_face_up);
    // one undo consumes both log entries: the reveal is taken back, and the
    // move's inverse is attempted — here the uncovered Seven does not accept
    // the Ace back, so the Ace stays on the foundation (the undo never fails,
    // it degrades to leaving the piles alone)
    game.undo();
    assert!(game.action_history.is_empty());
    assert!(!game.tables.playing_table[0][0].is_face_up);
    assert_eq!(game.tables.foundation_table[1].len(), 1);
}

#[test]
fn command_on_inert_cells_changes_nothing() {
    let mut game = sample_game();
    solitaire::process_command(&mut game, 4, 0); // the empty spot
    solitaire::process_command(&mut game, 0, 0); // a foundation cell
    solitaire::process_command(&mut game, 3, 5); // a row past the pile's end
    solitaire::process_command(&mut game, 0, 1); // a face-down card
    assert!(tables_equal(&game.tables, &sample_game().tables));
    assert!(game.action_history.is_empty());
}

#[test]
fn shuffled_deck_is_a_face_down_permutation() {
    let deck = solitaire::new_shuffled_deck(1000);
    assert_eq!(deck.len(), 52);
    assert!(deck.iter().all(|c| !c.is_face_up));
    for value in [
        CardValue::Ace,
        CardValue::Two,
        CardValue::Three,
        CardValue::Four,
        CardValue::Five,
        CardValue::Six,
        CardValue::Seven,
        CardValue::Eight,
        CardValue::Nine,
        CardValue::Ten,
        CardValue::Jack,
        CardValue::Queen,
        CardValue::King,
    ] {
        for symbol in [
            CardSymbol::Clubs,
            CardSymbol::Diamonds,
            CardSymbol::Hearts,
            CardSymbol::Spades,
        ] {
            let copies = deck
                .iter()
                .filter(|c| c.value == value && c.symbol == symbol)
                .count();
            assert_eq!(copies, 1);
        }
    }
}

#[test]
fn rank_adjacency_has_no_wraparound() {
    assert!(CardValue::Ace.is_followed_by(CardValue::Two));
    assert!(CardValue::Queen.is_followed_by(CardValue::King));
    assert!(!CardValue::Two.is_followed_by(CardValue::Ace));
    assert!(!CardValue::King.is_followed_by(CardValue::Ace));
    assert!(!CardValue::Five.is_followed_by(CardValue::Five));
    assert!(!CardValue::Five.is_followed_by(CardValue::Seven));
}

#[test]
fn color_classification_partitions_the_suits() {
    assert!(card(CardValue::Ace, CardSymbol::Clubs, true).get_color());
    assert!(card(CardValue::Ace, CardSymbol::Spades, false).get_color());
    assert!(!card(CardValue::Ace, CardSymbol::Diamonds, true).get_color());
    assert!(!card(CardValue::Ace, CardSymbol::Hearts, false).get_color());
}

#[test]
fn card_comparison_reads_rank_only() {
    let nine_d = card(CardValue::Nine, CardSymbol::Diamonds, true);
    let nine_s = card(CardValue::Nine, CardSymbol::Spades, false);
    let ten_h = card(CardValue::Ten, CardSymbol::Hearts, true);
    assert!(nine_d == nine_s);
    assert!(nine_d != ten_h);
    assert!(nine_d < ten_h);
    assert!(ten_h > nine_s);
    assert!(nine_d <= nine_s && nine_d >= nine_s);
}
