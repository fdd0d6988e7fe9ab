use vstd::prelude::*;

use crate::card::{rank_points, Card};
use crate::deck::{
    deck_points, distinct, full_deck, lemma_full_deck_distinct, lemma_without_keeps,
    lemma_without_member, new_deck, remove_card, without,
};

verus! {

/// Money a player holds when a new game is set up.
pub const STARTING_MONEY: u32 = 1000;

/// The dealer keeps drawing while his total is below this.
pub const DEALER_STANDS_AT: u32 = 17;

/// The total that wins at once.
pub const BLACKJACK: u32 = 21;

/// The totals of a round: the player's, the dealer's, and whether the player
/// has stood (1) or not (0).
#[derive(Clone, Copy, Debug, PartialEq, Eq, Structural)]
pub struct GameData {
    pub player: u32,
    pub dealer: u32,
    pub stand: u32,
}

/// The player's money and the amount staked on the current round.
#[derive(Clone, Copy, Debug, PartialEq, Eq, Structural)]
pub struct BetData {
    pub player_money: u32,
    pub bet_amount: u32,
}

/// The dealer's turn after the player has stood: his running total, and
/// whether a draw has already brought it to 17 or more, which ends the turn.
/// Only `Table::begin_stand` makes one and only `Table::dealer_hit` moves it
/// on, so a finished turn has drawn at least once.
#[derive(Clone, Copy, Debug, PartialEq, Eq, Structural)]
pub struct DealerTurn {
    dealer: u32,
    finished: bool,
}

/// How a round stands, as the result page reports it.
#[derive(Clone, Copy, Debug, PartialEq, Eq, Structural)]
pub enum Outcome {
    /// The player has exactly 21.
    BlackJack,
    /// The dealer went over 21.
    DealerBust,
    /// The player stood with more than the dealer.
    Win,
    /// The player stood with less than the dealer.
    Lose,
    /// The player stood with as much as the dealer.
    Draw,
    /// The player went over 21 without standing.
    Bust,
    /// Nothing is decided yet.
    Pending,
}

/// Everything the game keeps between two requests: the cards left in the
/// deck, the totals of the round (absent before the first round), the card
/// the player drew last, the dealer's face-up card, and the money.
pub struct Table {
    pub deck: Vec<Card>,
    pub game: Option<GameData>,
    pub drawn_card: Option<Card>,
    pub dealer_public_card: Option<Card>,
    pub money: BetData,
}

/// The totals shown and settled: those of the round, or all zero where no
/// round exists.
pub open spec fn game_or_zero(g: Option<GameData>) -> GameData {
    match g {
        Some(d) => d,
        None => GameData { player: 0, dealer: 0, stand: 0 },
    }
}

/// The outcome of a round with totals `g`. The rules are tried in this
/// order, the first that applies decides: the player has 21; the dealer is
/// over 21; the player stood with more, with less, or with as much as the
/// dealer; the player is over 21; otherwise nothing is decided.
pub open spec fn outcome_of(g: GameData) -> Outcome {
    if g.player == 21 {
        Outcome::BlackJack
    } else if g.dealer > 21 {
        Outcome::DealerBust
    } else if g.stand == 1 && g.player > g.dealer {
        Outcome::Win
    } else if g.stand == 1 && g.player < g.dealer {
        Outcome::Lose
    } else if g.stand == 1 && g.player == g.dealer {
        Outcome::Draw
    } else if g.player > 21 {
        Outcome::Bust
    } else {
        Outcome::Pending
    }
}

/// The outcomes that pay the stake to the player.
pub open spec fn is_win(o: Outcome) -> bool {
    o == Outcome::BlackJack || o == Outcome::DealerBust || o == Outcome::Win
}

/// The outcomes that take the stake from the player.
pub open spec fn is_loss(o: Outcome) -> bool {
    o == Outcome::Lose || o == Outcome::Bust
}

/// The player's money after a round with outcome `o` is settled.
pub open spec fn settled_money(m: BetData, o: Outcome) -> int {
    if is_win(o) {
        m.player_money + m.bet_amount
    } else if is_loss(o) {
        m.player_money - m.bet_amount
    } else {
        m.player_money as int
    }
}

/// The message the result page shows for an outcome.
pub open spec fn outcome_message(o: Outcome) -> Seq<char> {
    match o {
        Outcome::BlackJack => "BlackJack! You Win!"@,
        Outcome::DealerBust => "Dealer bust! You Win!"@,
        Outcome::Win => "You Win!"@,
        Outcome::Lose => "You Lose!"@,
        Outcome::Draw => "Draw!"@,
        Outcome::Bust => "Bust! You Lose!"@,
        Outcome::Pending => "None"@,
    }
}

/// Settling a round with totals `g` and money `m` stays within `u32`.
pub open spec fn settlement_fits(g: GameData, m: BetData) -> bool {
    &&& is_win(outcome_of(g)) ==> m.player_money + m.bet_amount <= u32::MAX
    &&& is_loss(outcome_of(g)) ==> m.bet_amount <= m.player_money
}

/// The first card the dealer takes when a round opens with picks `first`
/// and `second` from a fresh deck.
pub open spec fn opening_first(first: int) -> Card {
    full_deck()[first]
}

/// The second card the dealer takes.
pub open spec fn opening_second(first: int, second: int) -> Card {
    without(full_deck(), opening_first(first))[second]
}

/// The deck left once the dealer holds both opening cards.
pub open spec fn opening_deck(first: int, second: int) -> Seq<Card> {
    without(without(full_deck(), opening_first(first)), opening_second(first, second))
}

/// `g` with the player's total raised by `p`.
pub open spec fn add_to_player(g: Option<GameData>, p: int) -> Option<GameData> {
    match g {
        Some(d) => Some(GameData { player: (d.player + p) as u32, ..d }),
        None => None,
    }
}

/// `g` with the player marked as standing.
pub open spec fn with_stand(g: Option<GameData>) -> Option<GameData> {
    match g {
        Some(d) => Some(GameData { stand: 1, ..d }),
        None => None,
    }
}

/// `g` with the dealer's total set to `dealer`.
pub open spec fn with_dealer(g: Option<GameData>, dealer: u32) -> Option<GameData> {
    match g {
        Some(d) => Some(GameData { dealer, ..d }),
        None => None,
    }
}

/// A round is intact when no card is left twice in the deck and the cards
/// left with the points of both hands are worth a whole fresh deck.
pub open spec fn round_intact(deck: Seq<Card>, player: int, dealer: int) -> bool {
    &&& distinct(deck)
    &&& deck_points(deck) + player + dealer == 340
}

/// Opening a round leaves it intact: the player at 0, the dealer holding
/// exactly the points of the two cards that left the fresh deck.
pub proof fn lemma_opening_is_intact(first: int, second: int)
    requires
        0 <= first < 52,
        0 <= second < 51,
    ensures
        round_intact(
            opening_deck(first, second),
            0,
            rank_points(opening_first(first).rank) + rank_points(opening_second(first, second).rank),
        ),
        opening_deck(first, second).len() == 50,
{
    lemma_full_deck_distinct();
    crate::deck::lemma_full_deck_points();
    let c1 = opening_first(first);
    assert(full_deck().contains(c1)) by {
        assert(full_deck()[first] == c1);
    }
    lemma_without_member(full_deck(), c1);
    let rest = without(full_deck(), c1);
    let c2 = opening_second(first, second);
    assert(rest.contains(c2)) by {
        assert(rest[second] == c2);
    }
    lemma_without_member(rest, c2);
}

/// Every draw keeps a round intact, whether the player or the dealer takes
/// the card: it leaves the deck and its points go to the hand.
pub proof fn lemma_draw_keeps_round_intact(deck: Seq<Card>, player: int, dealer: int, pick: int)
    requires
        round_intact(deck, player, dealer),
        0 <= pick < deck.len(),
    ensures
        round_intact(without(deck, deck[pick]), player + rank_points(deck[pick].rank), dealer),
        round_intact(without(deck, deck[pick]), player, dealer + rank_points(deck[pick].rank)),
{
    assert(deck.contains(deck[pick]));
    lemma_without_member(deck, deck[pick]);
}

/// The deck left after the player draws, one after another, the cards at
/// positions `picks` of `deck` (each position taken in the deck as the
/// earlier draws left it), as `Table::player_draw` does.
pub open spec fn deck_after_draws(deck: Seq<Card>, picks: Seq<int>) -> Seq<Card>
    decreases picks.len(),
{
    if picks.len() == 0 {
        deck
    } else {
        let before = deck_after_draws(deck, picks.drop_last());
        without(before, before[picks.last()])
    }
}

/// The cards the player gets from those draws, in order.
pub open spec fn cards_drawn(deck: Seq<Card>, picks: Seq<int>) -> Seq<Card>
    decreases picks.len(),
{
    if picks.len() == 0 {
        Seq::empty()
    } else {
        cards_drawn(deck, picks.drop_last()).push(
            deck_after_draws(deck, picks.drop_last())[picks.last()],
        )
    }
}

/// The player's total after those draws, starting from `start`: each draw
/// adds the points of its card, as `Table::player_draw` does.
pub open spec fn player_after_draws(start: int, deck: Seq<Card>, picks: Seq<int>) -> int
    decreases picks.len(),
{
    if picks.len() == 0 {
        start
    } else {
        player_after_draws(start, deck, picks.drop_last()) + rank_points(
            deck_after_draws(deck, picks.drop_last())[picks.last()].rank,
        )
    }
}

/// Each position in `picks` lies inside the deck that the earlier draws
/// left.
pub open spec fn draws_possible(deck: Seq<Card>, picks: Seq<int>) -> bool
    decreases picks.len(),
{
    if picks.len() == 0 {
        true
    } else {
        &&& draws_possible(deck, picks.drop_last())
        &&& 0 <= picks.last() < deck_after_draws(deck, picks.drop_last()).len()
    }
}

/// Several draws from a deck without repeats: each takes exactly one card
/// out, the player's total grows by the points of the cards drawn, the
/// cards drawn are all different and none of them is left in the deck, and
/// the points of the deck and of the drawn cards together stay those of
/// the deck.
pub proof fn lemma_several_draws(deck: Seq<Card>, picks: Seq<int>, start: int)
    requires
        distinct(deck),
        draws_possible(deck, picks),
    ensures
        deck_after_draws(deck, picks).len() == deck.len() - picks.len(),
        distinct(deck_after_draws(deck, picks)),
        cards_drawn(deck, picks).len() == picks.len(),
        distinct(cards_drawn(deck, picks)),
        forall|k: int|
            0 <= k < picks.len() ==> !deck_after_draws(deck, picks).contains(
                #[trigger] cards_drawn(deck, picks)[k],
            ),
        player_after_draws(start, deck, picks) == start + deck_points(cards_drawn(deck, picks)),
        deck_points(deck_after_draws(deck, picks)) + deck_points(cards_drawn(deck, picks))
            == deck_points(deck),
    decreases picks.len(),
{
    broadcast use vstd::seq_lib::lemma_seq_contains_after_push;

    if picks.len() > 0 {
        let p = picks.drop_last();
        lemma_several_draws(deck, p, start);
        let before = deck_after_draws(deck, p);
        let c = before[picks.last()];
        let drawn = cards_drawn(deck, p);
        assert(before.contains(c));
        lemma_without_member(before, c);
        lemma_without_keeps(before, c);
        crate::deck::lemma_points_push(drawn, c);
        let after = deck_after_draws(deck, picks);
        let all = cards_drawn(deck, picks);
        assert(all == drawn.push(c));
        assert forall|k: int| 0 <= k < picks.len() implies !after.contains(
            #[trigger] all[k],
        ) by {
            if k < p.len() {
                assert(all[k] == drawn[k]);
                assert(!before.contains(drawn[k]));
            } else {
                assert(all[k] == c);
            }
        }
        assert(distinct(all)) by {
            assert forall|i: int, j: int|
                0 <= i < all.len() && 0 <= j < all.len() && i != j implies all[i] != all[j] by {
                if i < p.len() && j < p.len() {
                    assert(all[i] == drawn[i] && all[j] == drawn[j]);
                } else if i < p.len() {
                    assert(all[i] == drawn[i]);
                    assert(!before.contains(drawn[i]));
                    assert(before.contains(all[j]));
                } else if j < p.len() {
                    assert(all[j] == drawn[j]);
                    assert(!before.contains(drawn[j]));
                    assert(before.contains(all[i]));
                }
            }
        }
    }
}

/// A round opened from a fresh deck, followed by the player's draws at
/// positions `picks`: the deck holds 50 cards less one for each draw, the
/// player's total is the sum of the points of the cards drawn, and the
/// deck, the player's and the dealer's points together stay worth a fresh
/// deck.
pub proof fn lemma_round_of_draws(first: int, second: int, picks: Seq<int>)
    requires
        0 <= first < 52,
        0 <= second < 51,
        draws_possible(opening_deck(first, second), picks),
    ensures
        deck_after_draws(opening_deck(first, second), picks).len() == 50 - picks.len(),
        player_after_draws(0, opening_deck(first, second), picks) == deck_points(
            cards_drawn(opening_deck(first, second), picks),
        ),
        round_intact(
            deck_after_draws(opening_deck(first, second), picks),
            player_after_draws(0, opening_deck(first, second), picks),
            rank_points(opening_first(first).rank) + rank_points(opening_second(first, second).rank),
        ),
{
    lemma_opening_is_intact(first, second);
    lemma_several_draws(opening_deck(first, second), picks, 0);
}

/// In an intact round where the player holds at most 323 points, a dealer
/// under 17 always finds a card to draw.
pub proof fn lemma_round_never_runs_dry(deck: Seq<Card>, player: int, dealer: int)
    requires
        round_intact(deck, player, dealer),
        player <= 323,
        dealer < 17,
    ensures
        deck.len() > 0,
{
}

impl Outcome {
    /// The message shown for the outcome.
    pub fn message(&self) -> (s: String)
        ensures
            s@ == outcome_message(*self),
    {
        match self {
            Outcome::BlackJack => String::from_str("BlackJack! You Win!"),
            Outcome::DealerBust => String::from_str("Dealer bust! You Win!"),
            Outcome::Win => String::from_str("You Win!"),
            Outcome::Lose => String::from_str("You Lose!"),
            Outcome::Draw => String::from_str("Draw!"),
            Outcome::Bust => String::from_str("Bust! You Lose!"),
            Outcome::Pending => String::from_str("None"),
        }
    }

    /// Whether the outcome pays the stake to the player.
    pub fn is_win(&self) -> (b: bool)
        ensures
            b == is_win(*self),
    {
        match self {
            Outcome::BlackJack | Outcome::DealerBust | Outcome::Win => true,
            _ => false,
        }
    }

    /// Whether the outcome takes the stake from the player.
    pub fn is_loss(&self) -> (b: bool)
        ensures
            b == is_loss(*self),
    {
        match self {
            Outcome::Lose | Outcome::Bust => true,
            _ => false,
        }
    }

    /// The outcome of a round with totals `g` (see `outcome_of`).
    pub fn of(g: &GameData) -> (o: Outcome)
        ensures
            o == outcome_of(*g),
            g.player == 21 ==> o == Outcome::BlackJack,
            g.player != 21 && g.dealer > 21 ==> o == Outcome::DealerBust,
            g.player != 21 && g.dealer <= 21 && g.stand == 1 && g.player > g.dealer ==> o
                == Outcome::Win,
            g.player != 21 && g.dealer <= 21 && g.stand == 1 && g.player < g.dealer ==> o
                == Outcome::Lose,
            g.player != 21 && g.dealer <= 21 && g.stand == 1 && g.player == g.dealer ==> o
                == Outcome::Draw,
            g.player > 21 && g.dealer <= 21 && g.stand != 1 ==> o == Outcome::Bust,
            g.stand != 1 && g.player != 21 && g.dealer <= 21 && g.player <= 21 ==> o
                == Outcome::Pending,
    {
        proof {
            lemma_outcome_rules(*g);
        }
        if g.player == BLACKJACK {
            Outcome::BlackJack
        } else if g.dealer > BLACKJACK {
            Outcome::DealerBust
        } else if g.stand == 1 && g.player > g.dealer {
            Outcome::Win
        } else if g.stand == 1 && g.player < g.dealer {
            Outcome::Lose
        } else if g.stand == 1 && g.player == g.dealer {
            Outcome::Draw
        } else if g.player > BLACKJACK {
            Outcome::Bust
        } else {
            Outcome::Pending
        }
    }
}

/// The result page's rules, stated on the totals: 21 wins at once; else a
/// dealer over 21 loses; else a player who stood wins with more than the
/// dealer, loses with less and draws with as much; else a player over 21
/// has lost and a player under 21 waits.
pub proof fn lemma_outcome_rules(g: GameData)
    ensures
        g.player == 21 ==> outcome_of(g) == Outcome::BlackJack,
        g.player != 21 && g.dealer > 21 ==> outcome_of(g) == Outcome::DealerBust,
        g.player != 21 && g.dealer <= 21 && g.stand == 1 && g.player > g.dealer ==> outcome_of(g)
            == Outcome::Win,
        g.player != 21 && g.dealer <= 21 && g.stand == 1 && g.player < g.dealer ==> outcome_of(g)
            == Outcome::Lose,
        g.player != 21 && g.dealer <= 21 && g.stand == 1 && g.player == g.dealer ==> outcome_of(g)
            == Outcome::Draw,
        g.player > 21 && g.dealer <= 21 && g.stand != 1 ==> outcome_of(g) == Outcome::Bust,
        g.player < 21 && g.dealer <= 21 && g.stand != 1 ==> outcome_of(g) == Outcome::Pending,
{
}

/// The message of the result page for each case of the rules, stated on
/// the totals.
pub proof fn lemma_result_messages(g: GameData)
    ensures
        g.player == 21 ==> outcome_message(outcome_of(g)) == "BlackJack! You Win!"@,
        g.player != 21 && g.dealer > 21 ==> outcome_message(outcome_of(g))
            == "Dealer bust! You Win!"@,
        g.player != 21 && g.dealer <= 21 && g.stand == 1 && g.player > g.dealer
            ==> outcome_message(outcome_of(g)) == "You Win!"@,
        g.player != 21 && g.dealer <= 21 && g.stand == 1 && g.player < g.dealer
            ==> outcome_message(outcome_of(g)) == "You Lose!"@,
        g.player != 21 && g.dealer <= 21 && g.stand == 1 && g.player == g.dealer
            ==> outcome_message(outcome_of(g)) == "Draw!"@,
        g.player > 21 && g.dealer <= 21 && g.stand != 1 ==> outcome_message(outcome_of(g))
            == "Bust! You Lose!"@,
        g.player < 21 && g.dealer <= 21 && g.stand != 1 ==> outcome_message(outcome_of(g))
            == "None"@,
{
    lemma_outcome_rules(g);
}

/// Settling moves exactly the stake: a win (21, a dealer over 21, or
/// standing higher) adds it to the money, a loss (standing lower, or going
/// over 21) takes it away, a draw or an undecided round leaves the money.
pub proof fn lemma_settled_money(m: BetData, o: Outcome)
    ensures
        (o == Outcome::BlackJack || o == Outcome::DealerBust || o == Outcome::Win)
            ==> settled_money(m, o) == m.player_money + m.bet_amount,
        (o == Outcome::Lose || o == Outcome::Bust) ==> settled_money(m, o) == m.player_money
            - m.bet_amount,
        (o == Outcome::Draw || o == Outcome::Pending) ==> settled_money(m, o) == m.player_money,
{
}

/// A draw in a round adds exactly the card's points to the player's total
/// and leaves the dealer's total and the stand flag; without a round there
/// stays none.
pub proof fn lemma_add_to_player(g: Option<GameData>, p: int)
    requires
        g is Some ==> 0 <= g.unwrap().player + p <= u32::MAX,
    ensures
        g is Some ==> add_to_player(g, p) is Some && add_to_player(g, p).unwrap().player
            == g.unwrap().player + p && add_to_player(g, p).unwrap().dealer == g.unwrap().dealer
            && add_to_player(g, p).unwrap().stand == g.unwrap().stand,
        g is None ==> add_to_player(g, p) is None,
{
}

impl DealerTurn {
    #[verifier::type_invariant]
    spec fn finished_at_seventeen(self) -> bool {
        self.finished ==> self.dealer >= 17
    }

    /// The dealer's running total.
    pub closed spec fn total(self) -> u32 {
        self.dealer
    }

    /// Whether a draw has brought the dealer to 17 or more.
    pub closed spec fn finished(self) -> bool {
        self.finished
    }

    /// The dealer's running total.
    pub fn dealer(&self) -> (d: u32)
        ensures
            d == self.total(),
    {
        self.dealer
    }

    /// Whether the turn is over.
    pub fn is_finished(&self) -> (b: bool)
        ensures
            b == self.finished(),
    {
        self.finished
    }
}

impl GameData {
    /// Whether settling a round with these totals and the money `m` stays
    /// within `u32` (see `settlement_fits`).
    pub fn settlement_fits(&self, m: &BetData) -> (b: bool)
        ensures
            b == settlement_fits(*self, *m),
    {
        let o = Outcome::of(self);
        if o.is_win() {
            m.player_money <= u32::MAX - m.bet_amount
        } else if o.is_loss() {
            m.bet_amount <= m.player_money
        } else {
            true
        }
    }
}

impl Table {
    /// A table as a new game leaves it: no cards in the deck, no round, no
    /// card shown, 1000 in money and nothing staked.
    pub fn new() -> (t: Table)
        ensures
            t.deck@.len() == 0,
            t.game == None::<GameData>,
            t.drawn_card == None::<Card>,
            t.dealer_public_card == None::<Card>,
            t.money == (BetData { player_money: 1000, bet_amount: 0 }),
    {
        Table {
            deck: Vec::new(),
            game: None,
            drawn_card: None,
            dealer_public_card: None,
            money: BetData { player_money: STARTING_MONEY, bet_amount: 0 },
        }
    }

    /// The totals shown and settled: those of the round, or all zero.
    pub fn game_or_zero(&self) -> (g: GameData)
        ensures
            g == game_or_zero(self.game),
    {
        match self.game {
            Some(g) => g,
            None => GameData { player: 0, dealer: 0, stand: 0 },
        }
    }

    /// Opens a round with the stake `bet`: lays out a fresh deck, clears the
    /// player's drawn card, and deals the dealer two cards, the card at
    /// position `first` of the fresh deck, shown face up, then the card at
    /// position `second` of what is left. The player starts at 0, the
    /// dealer at the points of his two cards, and nobody has stood.
    pub fn start_round(&mut self, bet: u32, first: usize, second: usize)
        requires
            first < 52,
            second < 51,
        ensures
            final(self).money == (BetData {
                player_money: old(self).money.player_money,
                bet_amount: bet,
            }),
            final(self).deck@ == opening_deck(first as int, second as int),
            final(self).drawn_card == None::<Card>,
            final(self).dealer_public_card == Some(opening_first(first as int)),
            final(self).game == Some(
                GameData {
                    player: 0,
                    dealer: (rank_points(opening_first(first as int).rank) + rank_points(
                        opening_second(first as int, second as int).rank,
                    )) as u32,
                    stand: 0,
                },
            ),
            final(self).deck@.len() == 50,
            distinct(final(self).deck@),
            deck_points(final(self).deck@) + final(self).game.unwrap().dealer == 340,
    {
        self.money.bet_amount = bet;
        let mut deck = new_deck();
        self.drawn_card = None;
        proof {
            lemma_full_deck_distinct();
        }
        let first_card = deck[first];
        let mut dealer: u32 = first_card.points();
        proof {
            lemma_without_member(deck@, first_card);
        }
        remove_card(&mut deck, first_card);
        self.dealer_public_card = Some(first_card);
        let second_card = deck[second];
        dealer = dealer + second_card.points();
        proof {
            lemma_without_member(deck@, second_card);
        }
        remove_card(&mut deck, second_card);
        self.deck = deck;
        self.game = Some(GameData { player: 0, dealer, stand: 0 });
    }

    /// The player draws the card at position `pick` of the deck: it leaves
    /// the deck, becomes the card shown as drawn, and its points are added
    /// to the player's total where a round exists.
    pub fn player_draw(&mut self, pick: usize) -> (card: Card)
        requires
            pick < old(self).deck@.len(),
            old(self).game is Some ==> old(self).game.unwrap().player + rank_points(
                old(self).deck@[pick as int].rank,
            ) <= u32::MAX,
        ensures
            card == old(self).deck@[pick as int],
            final(self).deck@ == without(old(self).deck@, card),
            final(self).drawn_card == Some(card),
            final(self).game == add_to_player(old(self).game, rank_points(card.rank)),
            old(self).game is Some ==> final(self).game is Some && final(self).game.unwrap().player
                == old(self).game.unwrap().player + rank_points(card.rank) && final(self).game.unwrap().dealer == old(self).game.unwrap().dealer && final(self).game.unwrap().stand == old(self).game.unwrap().stand,
            old(self).game is None ==> final(self).game is None,
            final(self).dealer_public_card == old(self).dealer_public_card,
            final(self).money == old(self).money,
            !final(self).deck@.contains(card),
            distinct(old(self).deck@) ==> {
                &&& distinct(final(self).deck@)
                &&& final(self).deck@.len() == old(self).deck@.len() - 1
                &&& deck_points(final(self).deck@) + rank_points(card.rank) == deck_points(
                    old(self).deck@,
                )
            },
    {
        let card = self.deck[pick];
        proof {
            lemma_without_keeps(self.deck@, card);
            if distinct(self.deck@) {
                lemma_without_member(self.deck@, card);
            }
        }
        self.drawn_card = Some(card);
        match self.game {
            Some(g) => {
                self.game = Some(GameData { player: g.player + card.points(), ..g });
            },
            None => {},
        }
        remove_card(&mut self.deck, card);
        card
    }

    /// The player stands: the round is marked as stood, and the dealer's
    /// turn starts from his total (0 where no round exists).
    pub fn begin_stand(&mut self) -> (turn: DealerTurn)
        ensures
            final(self).game == with_stand(old(self).game),
            old(self).game is Some ==> final(self).game == Some(
                GameData { stand: 1, ..old(self).game.unwrap() },
            ),
            old(self).game is None ==> final(self).game is None && turn.total() == 0,
            turn.total() == game_or_zero(old(self).game).dealer,
            !turn.finished(),
            final(self).deck@ == old(self).deck@,
            final(self).drawn_card == old(self).drawn_card,
            final(self).dealer_public_card == old(self).dealer_public_card,
            final(self).money == old(self).money,
    {
        let start = self.game_or_zero().dealer;
        match self.game {
            Some(g) => {
                self.game = Some(GameData { stand: 1, ..g });
            },
            None => {},
        }
        DealerTurn { dealer: start, finished: false }
    }

    /// The dealer draws the card at position `pick` of the deck during his
    /// turn: it leaves the deck and its points go to his running total. The
    /// result tells whether he is done, that is whether his total has
    /// reached 17. A finished turn draws no more.
    pub fn dealer_hit(&mut self, turn: &mut DealerTurn, pick: usize) -> (done: bool)
        requires
            pick < old(self).deck@.len(),
            !old(turn).finished(),
            old(turn).total() + rank_points(old(self).deck@[pick as int].rank) <= u32::MAX,
        ensures
            final(turn).total() == old(turn).total() + rank_points(
                old(self).deck@[pick as int].rank,
            ),
            final(self).deck@ == without(old(self).deck@, old(self).deck@[pick as int]),
            done == (final(turn).total() >= 17),
            final(turn).finished() == done,
            final(self).game == old(self).game,
            final(self).drawn_card == old(self).drawn_card,
            final(self).dealer_public_card == old(self).dealer_public_card,
            final(self).money == old(self).money,
            !final(self).deck@.contains(old(self).deck@[pick as int]),
            distinct(old(self).deck@) ==> {
                &&& distinct(final(self).deck@)
                &&& final(self).deck@.len() == old(self).deck@.len() - 1
                &&& deck_points(final(self).deck@) + final(turn).total() == deck_points(
                    old(self).deck@,
                ) + old(turn).total()
            },
    {
        let card = self.deck[pick];
        proof {
            lemma_without_keeps(self.deck@, card);
            if distinct(self.deck@) {
                lemma_without_member(self.deck@, card);
            }
        }
        let total = turn.dealer + card.points();
        let done = total >= DEALER_STANDS_AT;
        *turn = DealerTurn { dealer: total, finished: done };
        remove_card(&mut self.deck, card);
        done
    }

    /// The dealer's turn is over: his total, 17 or more, becomes the
    /// round's, where a round exists.
    pub fn end_stand(&mut self, turn: DealerTurn)
        requires
            turn.finished(),
        ensures
            turn.total() >= 17,
            final(self).game == with_dealer(old(self).game, turn.total()),
            old(self).game is Some ==> final(self).game == Some(
                GameData { dealer: turn.total(), ..old(self).game.unwrap() },
            ),
            old(self).game is None ==> final(self).game is None,
            final(self).deck@ == old(self).deck@,
            final(self).drawn_card == old(self).drawn_card,
            final(self).dealer_public_card == old(self).dealer_public_card,
            final(self).money == old(self).money,
    {
        proof {
            use_type_invariant(&turn);
        }
        match self.game {
            Some(g) => {
                self.game = Some(GameData { dealer: turn.dealer, ..g });
            },
            None => {},
        }
    }

    /// Settles the round as the result page does each time it is shown:
    /// finds the outcome of the round's totals (all zero where no round
    /// exists), and adds the stake to the player's money on a win or takes
    /// it away on a loss. Nothing else changes, so settling again repeats
    /// the payment.
    pub fn settle(&mut self) -> (o: Outcome)
        requires
            settlement_fits(game_or_zero(old(self).game), old(self).money),
        ensures
            o == outcome_of(game_or_zero(old(self).game)),
            final(self).money.player_money == settled_money(old(self).money, o),
            (o == Outcome::BlackJack || o == Outcome::DealerBust || o == Outcome::Win)
                ==> final(self).money.player_money == old(self).money.player_money + old(self).money.bet_amount,
            (o == Outcome::Lose || o == Outcome::Bust) ==> final(self).money.player_money == old(self).money.player_money - old(self).money.bet_amount,
            (o == Outcome::Draw || o == Outcome::Pending) ==> final(self).money.player_money == old(self).money.player_money,
            final(self).money.bet_amount == old(self).money.bet_amount,
            final(self).game == old(self).game,
            final(self).deck@ == old(self).deck@,
            final(self).drawn_card == old(self).drawn_card,
            final(self).dealer_public_card == old(self).dealer_public_card,
    {
        let g = self.game_or_zero();
        let o = Outcome::of(&g);
        if o.is_win() {
            self.money.player_money = self.money.player_money + self.money.bet_amount;
        } else if o.is_loss() {
            self.money.player_money = self.money.player_money - self.money.bet_amount;
        }
        o
    }
}

} // verus!
