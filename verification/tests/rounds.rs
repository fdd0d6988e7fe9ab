use black_jack_rust::card::{Card, Rank, Suit};
use black_jack_rust::game::{BetData, GameData, Outcome, Table};

fn card(suit: Suit, rank: Rank) -> Card {
    Card { suit, rank }
}

fn deck_total(t: &Table) -> u32 {
    t.deck.iter().map(|c| c.points()).sum()
}

fn table_with(game: Option<GameData>, money: u32, bet: u32) -> Table {
    let mut t = Table::new();
    t.game = game;
    t.money = BetData { player_money: money, bet_amount: bet };
    t
}

#[test]
fn new_game_starts_with_a_thousand_and_nothing_dealt() {
    let t = Table::new();
    assert!(t.deck.is_empty());
    assert_eq!(t.game, None);
    assert_eq!(t.drawn_card, None);
    assert_eq!(t.dealer_public_card, None);
    assert_eq!(t.money, BetData { player_money: 1000, bet_amount: 0 });
}

#[test]
fn opening_deals_the_dealer_two_cards() {
    let mut t = Table::new();
    t.start_round(100, 0, 0);
    assert_eq!(t.money, BetData { player_money: 1000, bet_amount: 100 });
    assert_eq!(t.dealer_public_card, Some(card(Suit::Spade, Rank::Ace)));
    assert_eq!(t.game, Some(GameData { player: 0, dealer: 3, stand: 0 }));
    assert_eq!(t.drawn_card, None);
    assert_eq!(t.deck.len(), 50);
    assert_eq!(t.deck[0], card(Suit::Spade, Rank::Three));
    assert_eq!(deck_total(&t) + 3, 340);
}

#[test]
fn opening_takes_the_second_card_from_what_is_left() {
    let mut t = Table::new();
    t.start_round(5, 51, 50);
    assert_eq!(t.dealer_public_card, Some(card(Suit::Club, Rank::King)));
    assert_eq!(t.game, Some(GameData { player: 0, dealer: 20, stand: 0 }));
    assert!(!t.deck.contains(&card(Suit::Club, Rank::Queen)));
    assert!(!t.deck.contains(&card(Suit::Club, Rank::King)));
}

#[test]
fn opening_again_resets_the_deck_and_the_drawn_card() {
    let mut t = Table::new();
    t.start_round(10, 3, 3);
    t.player_draw(0);
    t.start_round(20, 13, 0);
    assert_eq!(t.deck.len(), 50);
    assert_eq!(t.drawn_card, None);
    assert_eq!(t.dealer_public_card, Some(card(Suit::Heart, Rank::Ace)));
    assert_eq!(t.game, Some(GameData { player: 0, dealer: 2, stand: 0 }));
    assert_eq!(t.money.bet_amount, 20);
}

#[test]
fn player_draw_moves_a_card_to_the_player() {
    let mut t = Table::new();
    t.start_round(100, 0, 0);
    let c = t.player_draw(10);
    assert_eq!(c, card(Suit::Spade, Rank::King));
    assert_eq!(t.drawn_card, Some(c));
    assert_eq!(t.game, Some(GameData { player: 10, dealer: 3, stand: 0 }));
    assert_eq!(t.deck.len(), 49);
    assert!(!t.deck.contains(&c));
    assert_eq!(deck_total(&t) + 10 + 3, 340);
}

#[test]
fn player_draw_without_a_round_only_takes_the_card() {
    let mut t = Table::new();
    t.deck = vec![card(Suit::Heart, Rank::Five), card(Suit::Club, Rank::Two)];
    let c = t.player_draw(1);
    assert_eq!(c, card(Suit::Club, Rank::Two));
    assert_eq!(t.game, None);
    assert_eq!(t.drawn_card, Some(c));
    assert_eq!(t.deck, vec![card(Suit::Heart, Rank::Five)]);
}

#[test]
fn dealer_draws_until_seventeen() {
    let mut t = Table::new();
    t.start_round(100, 0, 0);
    let mut turn = t.begin_stand();
    assert_eq!(turn.dealer(), 3);
    assert!(!turn.is_finished());
    assert_eq!(t.game, Some(GameData { player: 0, dealer: 3, stand: 1 }));
    // King of Spades (10) then Ten of Spades (10)
    assert!(!t.dealer_hit(&mut turn, 10));
    assert_eq!(turn.dealer(), 13);
    assert!(!turn.is_finished());
    assert!(t.dealer_hit(&mut turn, 7));
    assert_eq!(turn.dealer(), 23);
    assert!(turn.is_finished());
    assert_eq!(t.game, Some(GameData { player: 0, dealer: 3, stand: 1 }));
    t.end_stand(turn);
    assert_eq!(t.game, Some(GameData { player: 0, dealer: 23, stand: 1 }));
    assert_eq!(deck_total(&t) + 23, 340);
}

#[test]
fn dealer_always_draws_at_least_once() {
    let mut t = table_with(Some(GameData { player: 5, dealer: 18, stand: 0 }), 1000, 0);
    t.deck = vec![card(Suit::Heart, Rank::Ace)];
    let mut turn = t.begin_stand();
    assert!(t.dealer_hit(&mut turn, 0));
    t.end_stand(turn);
    assert_eq!(t.game, Some(GameData { player: 5, dealer: 19, stand: 1 }));
    assert!(t.deck.is_empty());
}

#[test]
fn dealer_stops_exactly_at_seventeen() {
    let mut t = table_with(None, 1000, 0);
    t.deck = vec![card(Suit::Heart, Rank::Seven), card(Suit::Spade, Rank::Queen)];
    let mut turn = t.begin_stand();
    assert_eq!(turn.dealer(), 0);
    assert!(!t.dealer_hit(&mut turn, 1));
    assert!(t.dealer_hit(&mut turn, 0));
    assert_eq!(turn.dealer(), 17);
    t.end_stand(turn);
    assert_eq!(t.game, None);
}

#[test]
fn blackjack_pays_the_stake() {
    let mut t = table_with(Some(GameData { player: 21, dealer: 25, stand: 1 }), 1000, 100);
    let o = t.settle();
    assert_eq!(o, Outcome::BlackJack);
    assert_eq!(o.message(), "BlackJack! You Win!");
    assert_eq!(t.money, BetData { player_money: 1100, bet_amount: 100 });
}

#[test]
fn dealer_bust_pays_the_stake() {
    let mut t = table_with(Some(GameData { player: 30, dealer: 22, stand: 0 }), 1000, 100);
    let o = t.settle();
    assert_eq!(o, Outcome::DealerBust);
    assert_eq!(o.message(), "Dealer bust! You Win!");
    assert_eq!(t.money.player_money, 1100);
}

#[test]
fn standing_higher_wins() {
    let mut t = table_with(Some(GameData { player: 20, dealer: 18, stand: 1 }), 500, 50);
    let o = t.settle();
    assert_eq!(o, Outcome::Win);
    assert_eq!(o.message(), "You Win!");
    assert_eq!(t.money.player_money, 550);
}

#[test]
fn standing_over_twenty_one_above_the_dealer_still_wins() {
    let mut t = table_with(Some(GameData { player: 25, dealer: 19, stand: 1 }), 500, 50);
    assert_eq!(t.settle(), Outcome::Win);
    assert_eq!(t.money.player_money, 550);
}

#[test]
fn standing_lower_loses() {
    let mut t = table_with(Some(GameData { player: 15, dealer: 19, stand: 1 }), 500, 50);
    let o = t.settle();
    assert_eq!(o, Outcome::Lose);
    assert_eq!(o.message(), "You Lose!");
    assert_eq!(t.money.player_money, 450);
}

#[test]
fn standing_level_is_a_draw() {
    let mut t = table_with(Some(GameData { player: 19, dealer: 19, stand: 1 }), 500, 50);
    let o = t.settle();
    assert_eq!(o, Outcome::Draw);
    assert_eq!(o.message(), "Draw!");
    assert_eq!(t.money.player_money, 500);
}

#[test]
fn bust_loses_the_stake() {
    let mut t = table_with(Some(GameData { player: 24, dealer: 12, stand: 0 }), 500, 50);
    let o = t.settle();
    assert_eq!(o, Outcome::Bust);
    assert_eq!(o.message(), "Bust! You Lose!");
    assert_eq!(t.money.player_money, 450);
}

#[test]
fn undecided_round_changes_nothing() {
    let mut t = table_with(Some(GameData { player: 12, dealer: 12, stand: 0 }), 500, 50);
    let o = t.settle();
    assert_eq!(o, Outcome::Pending);
    assert_eq!(o.message(), "None");
    assert_eq!(t.money.player_money, 500);
    let mut empty = table_with(None, 500, 50);
    assert_eq!(empty.settle(), Outcome::Pending);
    assert_eq!(empty.money.player_money, 500);
}

#[test]
fn settling_again_pays_again() {
    let mut t = table_with(Some(GameData { player: 21, dealer: 10, stand: 0 }), 1000, 100);
    t.settle();
    t.settle();
    assert_eq!(t.money.player_money, 1200);
    assert_eq!(t.game, Some(GameData { player: 21, dealer: 10, stand: 0 }));
}

#[test]
fn settlement_that_would_leave_u32_is_flagged() {
    let win = GameData { player: 21, dealer: 0, stand: 0 };
    let lose = GameData { player: 24, dealer: 0, stand: 0 };
    let open = GameData { player: 10, dealer: 10, stand: 0 };
    assert!(!win.settlement_fits(&BetData { player_money: u32::MAX, bet_amount: 1 }));
    assert!(win.settlement_fits(&BetData { player_money: u32::MAX - 1, bet_amount: 1 }));
    assert!(!lose.settlement_fits(&BetData { player_money: 10, bet_amount: 11 }));
    assert!(lose.settlement_fits(&BetData { player_money: 11, bet_amount: 11 }));
    assert!(open.settlement_fits(&BetData { player_money: 0, bet_amount: u32::MAX }));
}

#[test]
fn outcome_rules_apply_in_order() {
    assert_eq!(Outcome::of(&GameData { player: 21, dealer: 21, stand: 1 }), Outcome::BlackJack);
    assert_eq!(Outcome::of(&GameData { player: 25, dealer: 23, stand: 1 }), Outcome::DealerBust);
    assert_eq!(Outcome::of(&GameData { player: 22, dealer: 22, stand: 0 }), Outcome::DealerBust);
    assert_eq!(Outcome::of(&GameData { player: 22, dealer: 21, stand: 0 }), Outcome::Bust);
    assert_eq!(Outcome::of(&GameData { player: 22, dealer: 21, stand: 2 }), Outcome::Bust);
    assert!(Outcome::Win.is_win() && Outcome::BlackJack.is_win() && Outcome::DealerBust.is_win());
    assert!(Outcome::Lose.is_loss() && Outcome::Bust.is_loss());
    assert!(!Outcome::Draw.is_win() && !Outcome::Draw.is_loss());
    assert!(!Outcome::Pending.is_win() && !Outcome::Pending.is_loss());
}

#[test]
fn a_whole_round_keeps_the_deck_and_hands_at_340_points() {
    let mut t = Table::new();
    t.start_round(100, 20, 30);
    let mut player = 0;
    for pick in [0usize, 5, 7] {
        let c = t.player_draw(pick);
        player += c.points();
    }
    let g = t.game.unwrap();
    assert_eq!(g.player, player);
    assert_eq!(t.deck.len(), 50 - 3);
    assert_eq!(deck_total(&t) + g.player + g.dealer, 340);
    let mut turn = t.begin_stand();
    let mut pick = 0;
    while !t.dealer_hit(&mut turn, pick) {
        pick = (pick + 3) % t.deck.len();
    }
    t.end_stand(turn);
    let g = t.game.unwrap();
    assert!(g.dealer >= 17);
    assert_eq!(g.stand, 1);
    assert_eq!(deck_total(&t) + g.player + g.dealer, 340);
}

#[test]
fn game_or_zero_fills_in_a_missing_round() {
    let t = Table::new();
    assert_eq!(t.game_or_zero(), GameData { player: 0, dealer: 0, stand: 0 });
    let t = table_with(Some(GameData { player: 4, dealer: 9, stand: 1 }), 0, 0);
    assert_eq!(t.game_or_zero(), GameData { player: 4, dealer: 9, stand: 1 });
}
