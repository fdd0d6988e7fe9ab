use vstd::prelude::*;

use crate::card::{
    is_numeral, lemma_rank_name_gives_points, lemma_rank_number, lemma_rank_with_number,
    numeral_value, rank_label, rank_number, rank_points, rank_with_number, suit_at, suit_label,
    Card, Rank, Suit,
};

verus! {

/// The card at position `k` of a fresh deck: the suits follow one another in
/// the order Spade, Heart, Diamond, Club, and within each suit the ranks run
/// from Ace to King.
pub open spec fn card_at(k: int) -> Card {
    Card { suit: suit_at(k / 13), rank: rank_with_number(k % 13 + 1) }
}

/// The 52 cards of a fresh deck, in order.
pub open spec fn full_deck() -> Seq<Card> {
    Seq::new(52, |k: int| card_at(k))
}

/// Sum of the points of the cards in `s`.
pub open spec fn deck_points(s: Seq<Card>) -> int
    decreases s.len(),
{
    if s.len() == 0 {
        0
    } else {
        deck_points(s.drop_last()) + rank_points(s.last().rank)
    }
}

/// `s` with every copy of `c` taken out, the others keeping their order.
pub open spec fn without(s: Seq<Card>, c: Card) -> Seq<Card>
    decreases s.len(),
{
    if s.len() == 0 {
        s
    } else if s.last() == c {
        without(s.drop_last(), c)
    } else {
        without(s.drop_last(), c).push(s.last())
    }
}

/// No card occurs twice in `s`.
pub open spec fn distinct(s: Seq<Card>) -> bool {
    forall|i: int, j: int| 0 <= i < s.len() && 0 <= j < s.len() && i != j ==> s[i] != s[j]
}

/// Sum of the points of the ranks numbered 1 to `n`.
pub open spec fn ranks_points_upto(n: int) -> int
    decreases n,
{
    if n <= 0 {
        0
    } else {
        ranks_points_upto(n - 1) + rank_points(rank_with_number(n))
    }
}

proof fn lemma_div_mod_13(q: int, r: int)
    requires
        0 <= r < 13,
    ensures
        (13 * q + r) / 13 == q,
        (13 * q + r) % 13 == r,
{
    assert((13 * q + r) / 13 == q && (13 * q + r) % 13 == r) by (nonlinear_arith)
        requires
            0 <= r < 13,
    ;
}

proof fn lemma_split_13(k: int)
    requires
        0 <= k,
    ensures
        k == 13 * (k / 13) + k % 13,
        0 <= k % 13 < 13,
        0 <= k / 13,
        k < 52 ==> k / 13 < 4,
{
    assert(k == 13 * (k / 13) + k % 13 && 0 <= k % 13 < 13 && 0 <= k / 13 && (k < 52 ==> k / 13
        < 4)) by (nonlinear_arith)
        requires
            0 <= k,
    ;
}

/// Adding a card at the end of a pile adds its points.
pub proof fn lemma_points_push(s: Seq<Card>, c: Card)
    ensures
        deck_points(s.push(c)) == deck_points(s) + rank_points(c.rank),
{
    assert(s.push(c).drop_last() =~= s);
}

/// A pile from which a card is absent has nothing taken out.
pub proof fn lemma_without_absent(s: Seq<Card>, c: Card)
    requires
        !s.contains(c),
    ensures
        without(s, c) == s,
    decreases s.len(),
{
    if s.len() > 0 {
        assert(s.drop_last().push(s.last()) =~= s);
        assert(!s.drop_last().contains(c)) by {
            if s.drop_last().contains(c) {
                let i = choose|i: int| 0 <= i < s.drop_last().len() && s.drop_last()[i] == c;
                assert(s[i] == c);
            }
        }
        assert(s.last() != c) by {
            assert(s[s.len() - 1] == s.last());
        }
        lemma_without_absent(s.drop_last(), c);
    }
}

/// What taking a card out of a pile keeps: every card different from it,
/// and no card twice where there was none.
pub proof fn lemma_without_keeps(s: Seq<Card>, c: Card)
    ensures
        !without(s, c).contains(c),
        forall|x: Card| x != c ==> (without(s, c).contains(x) <==> s.contains(x)),
        without(s, c).len() <= s.len(),
        distinct(s) ==> distinct(without(s, c)),
    decreases s.len(),
{
    broadcast use vstd::seq_lib::lemma_seq_contains_after_push;

    if s.len() > 0 {
        let t = s.drop_last();
        let x = s.last();
        lemma_without_keeps(t, c);
        assert(t.push(x) =~= s);
        if distinct(s) {
            assert(distinct(t)) by {
                assert forall|i: int, j: int|
                    0 <= i < t.len() && 0 <= j < t.len() && i != j implies t[i] != t[j] by {
                    assert(s[i] == t[i] && s[j] == t[j]);
                }
            }
            if x != c {
                let w = without(s, c);
                let wt = without(t, c);
                assert(!wt.contains(x)) by {
                    if wt.contains(x) {
                        assert(t.contains(x));
                        let i = choose|i: int| 0 <= i < t.len() && t[i] == x;
                        assert(s[i] == s[s.len() - 1]);
                    }
                }
                assert forall|i: int, j: int|
                    0 <= i < w.len() && 0 <= j < w.len() && i != j implies w[i] != w[j] by {
                    if i < wt.len() && j < wt.len() {
                        assert(w[i] == wt[i] && w[j] == wt[j]);
                    } else if i < wt.len() {
                        assert(w[i] == wt[i]);
                    } else if j < wt.len() {
                        assert(w[j] == wt[j]);
                    }
                }
            }
        }
    }
}

/// Taking out of a pile without repeats a card that it holds removes exactly
/// one card, and exactly that card's points.
pub proof fn lemma_without_member(s: Seq<Card>, c: Card)
    requires
        distinct(s),
        s.contains(c),
    ensures
        without(s, c).len() == s.len() - 1,
        deck_points(without(s, c)) + rank_points(c.rank) == deck_points(s),
        distinct(without(s, c)),
        !without(s, c).contains(c),
    decreases s.len(),
{
    broadcast use vstd::seq_lib::lemma_seq_contains_after_push;

    lemma_without_keeps(s, c);
    let t = s.drop_last();
    let x = s.last();
    assert(t.push(x) =~= s);
    assert(distinct(t)) by {
        assert forall|i: int, j: int|
            0 <= i < t.len() && 0 <= j < t.len() && i != j implies t[i] != t[j] by {
            assert(s[i] == t[i] && s[j] == t[j]);
        }
    }
    if x == c {
        assert(!t.contains(c)) by {
            if t.contains(c) {
                let i = choose|i: int| 0 <= i < t.len() && t[i] == c;
                assert(s[i] == s[s.len() - 1]);
            }
        }
        lemma_without_absent(t, c);
    } else {
        assert(t.contains(c)) by {
            let i = choose|i: int| 0 <= i < s.len() && s[i] == c;
            assert(i != s.len() - 1);
            assert(t[i] == c);
        }
        lemma_without_member(t, c);
        lemma_points_push(without(t, c), x);
    }
}

/// A fresh deck holds no card twice.
pub proof fn lemma_full_deck_distinct()
    ensures
        distinct(full_deck()),
        full_deck().len() == 52,
{
    assert forall|i: int, j: int| 0 <= i < 52 && 0 <= j < 52 && i != j implies card_at(i)
        != card_at(j) by {
        lemma_split_13(i);
        lemma_split_13(j);
        if card_at(i) == card_at(j) {
            assert(i / 13 == j / 13);
            assert(i % 13 == j % 13) by {
                lemma_rank_number(card_at(i).rank);
            }
        }
    }
}

/// The card at position `13 * q + r` of a fresh deck.
proof fn lemma_card_at(q: int, r: int)
    requires
        0 <= q < 4,
        0 <= r < 13,
    ensures
        card_at(13 * q + r) == (Card { suit: suit_at(q), rank: rank_with_number(r + 1) }),
{
    lemma_div_mod_13(q, r);
}

/// A fresh deck is worth 340 points: 85 in each suit.
pub proof fn lemma_ranks_points_total()
    ensures
        ranks_points_upto(13) == 85,
{
    reveal_with_fuel(ranks_points_upto, 14);
}

/// A pile of one card is worth that card's points, and two piles laid one
/// after the other are worth the sum of both.
pub proof fn lemma_points_of_piles(a: Seq<Card>, b: Seq<Card>, x: Card)
    ensures
        deck_points(seq![x]) == rank_points(x.rank),
        deck_points(Seq::<Card>::empty()) == 0,
        deck_points(a + b) == deck_points(a) + deck_points(b),
    decreases b.len(),
{
    assert(seq![x].drop_last() =~= Seq::<Card>::empty());
    assert(seq![x].last() == x);
    assert(deck_points(Seq::<Card>::empty()) == 0);
    assert(deck_points(seq![x]) == deck_points(seq![x].drop_last()) + rank_points(x.rank));
    if b.len() > 0 {
        lemma_points_of_piles(a, b.drop_last(), x);
        assert((a + b).drop_last() =~= a + b.drop_last());
        assert((a + b).last() == b.last());
    } else {
        assert(a + b =~= a);
    }
}

/// Taking a card out of a one-card pile leaves it empty if it is that card
/// and untouched otherwise; taking it out of two piles laid one after the
/// other takes it out of each of them, so the other cards keep their order.
pub proof fn lemma_without_piles(a: Seq<Card>, b: Seq<Card>, x: Card, c: Card)
    ensures
        without(seq![x], c) == (if x == c {
            Seq::<Card>::empty()
        } else {
            seq![x]
        }),
        without(a + b, c) == without(a, c) + without(b, c),
    decreases b.len(),
{
    assert(seq![x].drop_last() =~= Seq::<Card>::empty());
    assert(Seq::<Card>::empty().push(x) =~= seq![x]);
    assert(seq![x].last() == x);
    assert(without(Seq::<Card>::empty(), c) == Seq::<Card>::empty());
    assert(without(seq![x], c) == (if x == c {
        without(seq![x].drop_last(), c)
    } else {
        without(seq![x].drop_last(), c).push(x)
    }));
    if b.len() > 0 {
        lemma_without_piles(a, b.drop_last(), x, c);
        assert((a + b).drop_last() =~= a + b.drop_last());
        assert((a + b).last() == b.last());
        if b.last() != c {
            assert(without(a, c) + without(b.drop_last(), c).push(b.last()) =~= (without(a, c)
                + without(b.drop_last(), c)).push(b.last()));
        }
    } else {
        assert(a + b =~= a);
        assert(without(a, c) + without(b, c) =~= without(a, c));
    }
}

/// Where each card of a fresh deck lies: position `k` holds, by `k / 13`,
/// a Spade, a Heart, a Diamond or a Club, and by `k % 13` the rank named
/// "Ace", then the numerals "2" to "10", then "Jack", "Queen", "King".
pub proof fn lemma_full_deck_layout(k: int)
    requires
        0 <= k < 52,
    ensures
        k < 13 ==> suit_label(full_deck()[k].suit) == "Spade"@,
        13 <= k < 26 ==> suit_label(full_deck()[k].suit) == "Heart"@,
        26 <= k < 39 ==> suit_label(full_deck()[k].suit) == "Diamond"@,
        39 <= k ==> suit_label(full_deck()[k].suit) == "Club"@,
        k % 13 == 0 ==> rank_label(full_deck()[k].rank) == "Ace"@,
        1 <= k % 13 <= 9 ==> is_numeral(rank_label(full_deck()[k].rank)) && numeral_value(
            rank_label(full_deck()[k].rank),
        ) == k % 13 + 1,
        k % 13 == 10 ==> rank_label(full_deck()[k].rank) == "Jack"@,
        k % 13 == 11 ==> rank_label(full_deck()[k].rank) == "Queen"@,
        k % 13 == 12 ==> rank_label(full_deck()[k].rank) == "King"@,
{
    lemma_split_13(k);
    let q = k / 13;
    let r = k % 13;
    lemma_card_at(q, r);
    lemma_rank_with_number(r + 1);
    lemma_rank_name_gives_points(rank_with_number(r + 1));
    if k < 13 {
        assert(q == 0) by (nonlinear_arith)
            requires
                k == 13 * q + r,
                0 <= r < 13,
                0 <= k < 13,
        ;
    } else if k < 26 {
        assert(q == 1) by (nonlinear_arith)
            requires
                k == 13 * q + r,
                0 <= r < 13,
                13 <= k < 26,
        ;
    } else if k < 39 {
        assert(q == 2) by (nonlinear_arith)
            requires
                k == 13 * q + r,
                0 <= r < 13,
                26 <= k < 39,
        ;
    } else {
        assert(q == 3) by (nonlinear_arith)
            requires
                k == 13 * q + r,
                0 <= r < 13,
                39 <= k < 52,
        ;
    }
}

/// The first `k` cards of a fresh deck are worth 85 points for each
/// complete suit plus the ranks dealt of the next one.
proof fn lemma_full_deck_prefix_points(k: int)
    requires
        0 <= k <= 52,
    ensures
        deck_points(full_deck().take(k)) == 85 * (k / 13) + ranks_points_upto(k % 13),
    decreases k,
{
    if k == 0 {
        assert(full_deck().take(0) =~= Seq::<Card>::empty());
    } else {
        let j = k - 1;
        lemma_full_deck_prefix_points(j);
        lemma_split_13(j);
        let q = j / 13;
        let r = j % 13;
        lemma_card_at(q, r);
        assert(full_deck().take(k) =~= full_deck().take(j).push(card_at(j)));
        lemma_points_push(full_deck().take(j), card_at(j));
        if r < 12 {
            lemma_div_mod_13(q, r + 1);
        } else {
            lemma_div_mod_13(q + 1, 0);
            lemma_ranks_points_total();
        }
    }
}

/// A fresh deck is worth 340 points.
pub proof fn lemma_full_deck_points()
    ensures
        deck_points(full_deck()) == 340,
{
    lemma_full_deck_prefix_points(52);
    assert(full_deck().take(52) =~= full_deck());
}

/// Lays out a fresh deck: for each suit in the order Spade, Heart, Diamond,
/// Club, the ranks from Ace to King.
pub fn new_deck() -> (deck: Vec<Card>)
    ensures
        deck@ == full_deck(),
        deck@.len() == 52,
        distinct(deck@),
        deck_points(deck@) == 340,
{
    let suits = Suit::all();
    let mut deck: Vec<Card> = Vec::new();
    let mut si: usize = 0;
    while si < 4
        invariant
            0 <= si <= 4,
            suits@ == seq![Suit::Spade, Suit::Heart, Suit::Diamond, Suit::Club],
            deck@ == full_deck().take(13 * si as int),
            deck_points(deck@) == 85 * si,
        decreases 4 - si,
    {
        let suit = suits[si];
        assert(suit == suit_at(si as int));
        let mut n: u8 = 1;
        while n <= 13
            invariant
                0 <= si < 4,
                1 <= n <= 14,
                suit == suit_at(si as int),
                deck@ == full_deck().take(13 * si + n - 1),
                deck_points(deck@) == 85 * si + ranks_points_upto(n - 1),
            decreases 14 - n,
        {
            let card = Card { suit, rank: Rank::with_number(n) };
            proof {
                lemma_card_at(si as int, n - 1);
                lemma_points_push(deck@, card);
                assert(full_deck().take(13 * si + n) =~= full_deck().take(13 * si + n - 1).push(
                    card,
                ));
            }
            deck.push(card);
            n = n + 1;
        }
        proof {
            lemma_ranks_points_total();
        }
        si = si + 1;
    }
    proof {
        assert(full_deck().take(52) =~= full_deck());
        lemma_full_deck_distinct();
    }
    deck
}

/// Takes every copy of `card` out of the deck, keeping the order of the
/// other cards.
pub fn remove_card(deck: &mut Vec<Card>, card: Card)
    ensures
        final(deck)@ == without(old(deck)@, card),
{
    let mut kept: Vec<Card> = Vec::new();
    let n = deck.len();
    let mut i: usize = 0;
    while i < n
        invariant
            n == deck@.len(),
            0 <= i <= n,
            kept@ == without(deck@.take(i as int), card),
        decreases n - i,
    {
        let c = deck[i];
        proof {
            assert(deck@.take(i + 1).drop_last() =~= deck@.take(i as int));
            assert(deck@.take(i + 1).last() == c);
        }
        if c != card {
            kept.push(c);
        }
        i = i + 1;
    }
    proof {
        assert(deck@.take(n as int) =~= deck@);
    }
    *deck = kept;
}

} // verus!
