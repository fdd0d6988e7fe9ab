use vstd::prelude::*;

verus! {

/// The four suits, in the order in which a fresh deck is laid out.
#[derive(Clone, Copy, Debug, PartialEq, Eq, Structural)]
pub enum Suit {
    Spade,
    Heart,
    Diamond,
    Club,
}

/// The thirteen ranks, from Ace up to King.
#[derive(Clone, Copy, Debug, PartialEq, Eq, Structural)]
pub enum Rank {
    Ace,
    Two,
    Three,
    Four,
    Five,
    Six,
    Seven,
    Eight,
    Nine,
    Ten,
    Jack,
    Queen,
    King,
}

/// A playing card.
#[derive(Clone, Copy, Debug, PartialEq, Eq, Structural)]
pub struct Card {
    pub suit: Suit,
    pub rank: Rank,
}

/// The suit at position `i` (0 to 3) of the deck order.
pub open spec fn suit_at(i: int) -> Suit {
    if i == 0 {
        Suit::Spade
    } else if i == 1 {
        Suit::Heart
    } else if i == 2 {
        Suit::Diamond
    } else {
        Suit::Club
    }
}

/// The number written on a card of rank `r`: 1 for an Ace, 11 to 13 for
/// Jack, Queen and King.
pub open spec fn rank_number(r: Rank) -> int {
    match r {
        Rank::Ace => 1,
        Rank::Two => 2,
        Rank::Three => 3,
        Rank::Four => 4,
        Rank::Five => 5,
        Rank::Six => 6,
        Rank::Seven => 7,
        Rank::Eight => 8,
        Rank::Nine => 9,
        Rank::Ten => 10,
        Rank::Jack => 11,
        Rank::Queen => 12,
        Rank::King => 13,
    }
}

/// The rank whose number is `n` (1 to 13).
pub open spec fn rank_with_number(n: int) -> Rank {
    if n == 1 {
        Rank::Ace
    } else if n == 2 {
        Rank::Two
    } else if n == 3 {
        Rank::Three
    } else if n == 4 {
        Rank::Four
    } else if n == 5 {
        Rank::Five
    } else if n == 6 {
        Rank::Six
    } else if n == 7 {
        Rank::Seven
    } else if n == 8 {
        Rank::Eight
    } else if n == 9 {
        Rank::Nine
    } else if n == 10 {
        Rank::Ten
    } else if n == 11 {
        Rank::Jack
    } else if n == 12 {
        Rank::Queen
    } else {
        Rank::King
    }
}

/// Points of a rank: Jack, Queen and King count 10, an Ace always counts 1,
/// every other card counts its number.
pub open spec fn rank_points(r: Rank) -> int {
    if rank_number(r) >= 11 {
        10
    } else {
        rank_number(r)
    }
}

/// The name under which a suit is stored and shown.
pub open spec fn suit_label(s: Suit) -> Seq<char> {
    match s {
        Suit::Spade => "Spade"@,
        Suit::Heart => "Heart"@,
        Suit::Diamond => "Diamond"@,
        Suit::Club => "Club"@,
    }
}

/// The name under which a rank is stored and shown: "Ace", "2" to "10",
/// "Jack", "Queen", "King".
pub open spec fn rank_label(r: Rank) -> Seq<char> {
    match r {
        Rank::Ace => "Ace"@,
        Rank::Two => "2"@,
        Rank::Three => "3"@,
        Rank::Four => "4"@,
        Rank::Five => "5"@,
        Rank::Six => "6"@,
        Rank::Seven => "7"@,
        Rank::Eight => "8"@,
        Rank::Nine => "9"@,
        Rank::Ten => "10"@,
        Rank::Jack => "Jack"@,
        Rank::Queen => "Queen"@,
        Rank::King => "King"@,
    }
}

/// The suit named `s`, if any.
pub open spec fn parse_suit(s: Seq<char>) -> Option<Suit> {
    if s == "Spade"@ {
        Some(Suit::Spade)
    } else if s == "Heart"@ {
        Some(Suit::Heart)
    } else if s == "Diamond"@ {
        Some(Suit::Diamond)
    } else if s == "Club"@ {
        Some(Suit::Club)
    } else {
        None
    }
}

/// The rank named `s`, if any.
pub open spec fn parse_rank(s: Seq<char>) -> Option<Rank> {
    if s == "Ace"@ {
        Some(Rank::Ace)
    } else if s == "2"@ {
        Some(Rank::Two)
    } else if s == "3"@ {
        Some(Rank::Three)
    } else if s == "4"@ {
        Some(Rank::Four)
    } else if s == "5"@ {
        Some(Rank::Five)
    } else if s == "6"@ {
        Some(Rank::Six)
    } else if s == "7"@ {
        Some(Rank::Seven)
    } else if s == "8"@ {
        Some(Rank::Eight)
    } else if s == "9"@ {
        Some(Rank::Nine)
    } else if s == "10"@ {
        Some(Rank::Ten)
    } else if s == "Jack"@ {
        Some(Rank::Jack)
    } else if s == "Queen"@ {
        Some(Rank::Queen)
    } else if s == "King"@ {
        Some(Rank::King)
    } else {
        None
    }
}

/// The card whose suit is named `suit` and whose rank is named `num`, if
/// both names are known.
pub open spec fn parse_card(suit: Seq<char>, num: Seq<char>) -> Option<Card> {
    match (parse_suit(suit), parse_rank(num)) {
        (Some(s), Some(r)) => Some(Card { suit: s, rank: r }),
        _ => None,
    }
}

/// The labels shown for a card slot: the card's suit and rank names, or
/// "None" twice for an empty slot.
pub open spec fn slot_labels(c: Option<Card>) -> (Seq<char>, Seq<char>) {
    match c {
        Some(card) => (suit_label(card.suit), rank_label(card.rank)),
        None => ("None"@, "None"@),
    }
}

/// Every rank has a number from 1 to 13, and that number gives the rank back.
pub proof fn lemma_rank_number(r: Rank)
    ensures
        1 <= rank_number(r) <= 13,
        rank_with_number(rank_number(r)) == r,
        1 <= rank_points(r) <= 10,
{
}

/// Whether `s` is a decimal numeral: at least one character, all digits.
pub open spec fn is_numeral(s: Seq<char>) -> bool {
    s.len() > 0 && forall|i: int| 0 <= i < s.len() ==> '0' <= #[trigger] s[i] <= '9'
}

/// The number that the decimal numeral `s` writes.
pub open spec fn numeral_value(s: Seq<char>) -> int
    decreases s.len(),
{
    if s.len() == 0 {
        0
    } else {
        numeral_value(s.drop_last()) * 10 + (s.last() as int - '0' as int)
    }
}

/// The points a stored rank name stands for, counted from the name itself:
/// 10 for "Jack", "Queen" and "King", 1 for "Ace", and otherwise the number
/// that the name writes.
pub open spec fn points_of_label(s: Seq<char>) -> int {
    if s == "Jack"@ || s == "Queen"@ || s == "King"@ {
        10
    } else if s == "Ace"@ {
        1
    } else {
        numeral_value(s)
    }
}

/// A rank's points are those its name stands for, and the name of a
/// numbered rank is the decimal numeral of its number (2 to 10): the card
/// shown as "4" counts 4. The ranks numbered 1, 11, 12 and 13 are named
/// "Ace", "Jack", "Queen" and "King".
pub proof fn lemma_rank_name_gives_points(r: Rank)
    ensures
        rank_points(r) == points_of_label(rank_label(r)),
        2 <= rank_number(r) <= 10 ==> is_numeral(rank_label(r)) && numeral_value(rank_label(r))
            == rank_number(r),
        rank_number(r) == 1 <==> rank_label(r) == "Ace"@,
        rank_number(r) == 11 <==> rank_label(r) == "Jack"@,
        rank_number(r) == 12 <==> rank_label(r) == "Queen"@,
        rank_number(r) == 13 <==> rank_label(r) == "King"@,
{
    lemma_rank_label_roundtrip(r);
    reveal_strlit("Ace");
    reveal_strlit("2");
    reveal_strlit("3");
    reveal_strlit("4");
    reveal_strlit("5");
    reveal_strlit("6");
    reveal_strlit("7");
    reveal_strlit("8");
    reveal_strlit("9");
    reveal_strlit("10");
    reveal_strlit("Jack");
    reveal_strlit("Queen");
    reveal_strlit("King");
    assert("Ace"@.len() == 3 && "10"@.len() == 2 && "Jack"@.len() == 4 && "King"@.len() == 4
        && "Queen"@.len() == 5);
    assert("2"@.len() == 1 && "3"@.len() == 1 && "4"@.len() == 1 && "5"@.len() == 1);
    assert("6"@.len() == 1 && "7"@.len() == 1 && "8"@.len() == 1 && "9"@.len() == 1);
    assert("Jack"@[0] != "King"@[0]);
    let l = rank_label(r);
    assert(l.len() == 0 ==> numeral_value(l) == 0);
    if 2 <= rank_number(r) <= 10 {
        if rank_number(r) == 10 {
            assert(l =~= seq!['1', '0']);
            lemma_numeral_digits(seq!['1'], '0');
            lemma_numeral_digits(Seq::<char>::empty(), '1');
            assert(seq!['1'] =~= Seq::<char>::empty().push('1'));
            assert(l =~= seq!['1'].push('0'));
        } else {
            assert(l.len() == 1);
            let c = l[0];
            assert(l =~= Seq::<char>::empty().push(c));
            lemma_numeral_digits(Seq::<char>::empty(), c);
            assert(c as int - '0' as int == rank_number(r)) by {
                match r {
                    Rank::Two => { assert(c == '2'); },
                    Rank::Three => { assert(c == '3'); },
                    Rank::Four => { assert(c == '4'); },
                    Rank::Five => { assert(c == '5'); },
                    Rank::Six => { assert(c == '6'); },
                    Rank::Seven => { assert(c == '7'); },
                    Rank::Eight => { assert(c == '8'); },
                    Rank::Nine => { assert(c == '9'); },
                    _ => {},
                }
            }
        }
        assert(is_numeral(l));
    }
}

/// Writing one more digit after a numeral multiplies its value by ten and
/// adds that digit.
pub proof fn lemma_numeral_digits(s: Seq<char>, d: char)
    ensures
        numeral_value(s.push(d)) == numeral_value(s) * 10 + (d as int - '0' as int),
{
    assert(s.push(d).drop_last() =~= s);
}

/// The rank numbered `n` has number `n`: the deck lays out, in each suit,
/// the ranks named "Ace", "2" to "10", "Jack", "Queen", "King" in this order.
pub proof fn lemma_rank_with_number(n: int)
    requires
        1 <= n <= 13,
    ensures
        rank_number(rank_with_number(n)) == n,
        2 <= n <= 10 ==> is_numeral(rank_label(rank_with_number(n))) && numeral_value(
            rank_label(rank_with_number(n)),
        ) == n,
        rank_points(rank_with_number(n)) == (if n >= 10 {
            10
        } else {
            n
        }),
{
    lemma_rank_name_gives_points(rank_with_number(n));
}

/// The name of a suit reads back as that suit.
pub proof fn lemma_suit_label_roundtrip(s: Suit)
    ensures
        parse_suit(suit_label(s)) == Some(s),
{
    reveal_strlit("Spade");
    reveal_strlit("Heart");
    reveal_strlit("Diamond");
    reveal_strlit("Club");
    assert("Spade"@.len() == 5 && "Heart"@.len() == 5 && "Diamond"@.len() == 7 && "Club"@.len()
        == 4);
    assert("Spade"@[0] != "Heart"@[0]);
}

/// The name of a rank reads back as that rank.
pub proof fn lemma_rank_label_roundtrip(r: Rank)
    ensures
        parse_rank(rank_label(r)) == Some(r),
{
    reveal_strlit("Ace");
    reveal_strlit("2");
    reveal_strlit("3");
    reveal_strlit("4");
    reveal_strlit("5");
    reveal_strlit("6");
    reveal_strlit("7");
    reveal_strlit("8");
    reveal_strlit("9");
    reveal_strlit("10");
    reveal_strlit("Jack");
    reveal_strlit("Queen");
    reveal_strlit("King");
    assert("Ace"@.len() == 3 && "10"@.len() == 2 && "Jack"@.len() == 4 && "King"@.len() == 4
        && "Queen"@.len() == 5);
    assert("2"@.len() == 1 && "3"@.len() == 1 && "4"@.len() == 1 && "5"@.len() == 1);
    assert("6"@.len() == 1 && "7"@.len() == 1 && "8"@.len() == 1 && "9"@.len() == 1);
    assert("2"@[0] != "3"@[0] && "2"@[0] != "4"@[0] && "2"@[0] != "5"@[0] && "2"@[0] != "6"@[0]);
    assert("2"@[0] != "7"@[0] && "2"@[0] != "8"@[0] && "2"@[0] != "9"@[0] && "3"@[0] != "4"@[0]);
    assert("3"@[0] != "5"@[0] && "3"@[0] != "6"@[0] && "3"@[0] != "7"@[0] && "3"@[0] != "8"@[0]);
    assert("3"@[0] != "9"@[0] && "4"@[0] != "5"@[0] && "4"@[0] != "6"@[0] && "4"@[0] != "7"@[0]);
    assert("4"@[0] != "8"@[0] && "4"@[0] != "9"@[0] && "5"@[0] != "6"@[0] && "5"@[0] != "7"@[0]);
    assert("5"@[0] != "8"@[0] && "5"@[0] != "9"@[0] && "6"@[0] != "7"@[0] && "6"@[0] != "8"@[0]);
    assert("6"@[0] != "9"@[0] && "7"@[0] != "8"@[0] && "7"@[0] != "9"@[0] && "8"@[0] != "9"@[0]);
    assert("Jack"@[0] != "King"@[0]);
}

/// A card written as its two labels reads back as the same card, and only
/// the labels of a card read as that card.
pub proof fn lemma_card_labels_roundtrip(c: Card, suit: Seq<char>, num: Seq<char>)
    ensures
        parse_card(suit_label(c.suit), rank_label(c.rank)) == Some(c),
        parse_card(suit, num) == Some(c) ==> suit == suit_label(c.suit) && num == rank_label(
            c.rank,
        ),
{
    lemma_suit_label_roundtrip(c.suit);
    lemma_rank_label_roundtrip(c.rank);
}

impl Suit {
    /// All suits, in deck order.
    pub fn all() -> (v: Vec<Suit>)
        ensures
            v@ == seq![Suit::Spade, Suit::Heart, Suit::Diamond, Suit::Club],
    {
        let mut v: Vec<Suit> = Vec::new();
        v.push(Suit::Spade);
        v.push(Suit::Heart);
        v.push(Suit::Diamond);
        v.push(Suit::Club);
        v
    }

    /// The name of the suit.
    pub fn label(&self) -> (s: String)
        ensures
            s@ == suit_label(*self),
    {
        match self {
            Suit::Spade => String::from_str("Spade"),
            Suit::Heart => String::from_str("Heart"),
            Suit::Diamond => String::from_str("Diamond"),
            Suit::Club => String::from_str("Club"),
        }
    }

    /// The suit with the name `name`, or `None` where no suit has it.
    pub fn from_label(name: &str) -> (s: Option<Suit>)
        ensures
            s == parse_suit(name@),
    {
        let name: String = name.to_owned();
        if name == String::from_str("Spade") {
            Some(Suit::Spade)
        } else if name == String::from_str("Heart") {
            Some(Suit::Heart)
        } else if name == String::from_str("Diamond") {
            Some(Suit::Diamond)
        } else if name == String::from_str("Club") {
            Some(Suit::Club)
        } else {
            None
        }
    }
}

impl Rank {
    /// The rank with number `n`: 1 is an Ace, 11 to 13 are Jack, Queen, King.
    pub fn with_number(n: u8) -> (r: Rank)
        requires
            1 <= n <= 13,
        ensures
            r == rank_with_number(n as int),
            rank_number(r) == n,
    {
        if n == 1 {
            Rank::Ace
        } else if n == 2 {
            Rank::Two
        } else if n == 3 {
            Rank::Three
        } else if n == 4 {
            Rank::Four
        } else if n == 5 {
            Rank::Five
        } else if n == 6 {
            Rank::Six
        } else if n == 7 {
            Rank::Seven
        } else if n == 8 {
            Rank::Eight
        } else if n == 9 {
            Rank::Nine
        } else if n == 10 {
            Rank::Ten
        } else if n == 11 {
            Rank::Jack
        } else if n == 12 {
            Rank::Queen
        } else {
            Rank::King
        }
    }

    /// The number written on the card (1 to 13).
    pub fn number(&self) -> (n: u8)
        ensures
            n == rank_number(*self),
    {
        match self {
            Rank::Ace => 1,
            Rank::Two => 2,
            Rank::Three => 3,
            Rank::Four => 4,
            Rank::Five => 5,
            Rank::Six => 6,
            Rank::Seven => 7,
            Rank::Eight => 8,
            Rank::Nine => 9,
            Rank::Ten => 10,
            Rank::Jack => 11,
            Rank::Queen => 12,
            Rank::King => 13,
        }
    }

    /// Points of the rank: 10 for Jack, Queen and King, 1 for an Ace, the
    /// number of the card otherwise.
    pub fn points(&self) -> (p: u32)
        ensures
            p == rank_points(*self),
            p == points_of_label(rank_label(*self)),
            (*self == Rank::Jack || *self == Rank::Queen || *self == Rank::King) ==> p == 10,
            *self == Rank::Ace ==> p == 1,
            rank_number(*self) <= 10 ==> p == rank_number(*self),
            1 <= p <= 10,
    {
        proof {
            lemma_rank_name_gives_points(*self);
        }
        let n = self.number();
        if n >= 11 {
            10
        } else {
            n as u32
        }
    }

    /// The name of the rank: "Ace", the decimal numeral of its number from
    /// "2" to "10", "Jack", "Queen" or "King".
    pub fn label(&self) -> (s: String)
        ensures
            s@ == rank_label(*self),
            2 <= rank_number(*self) <= 10 ==> is_numeral(s@) && numeral_value(s@) == rank_number(
                *self,
            ),
            points_of_label(s@) == rank_points(*self),
    {
        proof {
            lemma_rank_name_gives_points(*self);
        }
        match self {
            Rank::Ace => String::from_str("Ace"),
            Rank::Two => String::from_str("2"),
            Rank::Three => String::from_str("3"),
            Rank::Four => String::from_str("4"),
            Rank::Five => String::from_str("5"),
            Rank::Six => String::from_str("6"),
            Rank::Seven => String::from_str("7"),
            Rank::Eight => String::from_str("8"),
            Rank::Nine => String::from_str("9"),
            Rank::Ten => String::from_str("10"),
            Rank::Jack => String::from_str("Jack"),
            Rank::Queen => String::from_str("Queen"),
            Rank::King => String::from_str("King"),
        }
    }

    /// The rank with the name `name`, or `None` where no rank has it.
    pub fn from_label(name: &str) -> (r: Option<Rank>)
        ensures
            r == parse_rank(name@),
    {
        let name: String = name.to_owned();
        if name == String::from_str("Ace") {
            Some(Rank::Ace)
        } else if name == String::from_str("2") {
            Some(Rank::Two)
        } else if name == String::from_str("3") {
            Some(Rank::Three)
        } else if name == String::from_str("4") {
            Some(Rank::Four)
        } else if name == String::from_str("5") {
            Some(Rank::Five)
        } else if name == String::from_str("6") {
            Some(Rank::Six)
        } else if name == String::from_str("7") {
            Some(Rank::Seven)
        } else if name == String::from_str("8") {
            Some(Rank::Eight)
        } else if name == String::from_str("9") {
            Some(Rank::Nine)
        } else if name == String::from_str("10") {
            Some(Rank::Ten)
        } else if name == String::from_str("Jack") {
            Some(Rank::Jack)
        } else if name == String::from_str("Queen") {
            Some(Rank::Queen)
        } else if name == String::from_str("King") {
            Some(Rank::King)
        } else {
            None
        }
    }
}

impl Card {
    /// Points of the card (see `Rank::points`).
    pub fn points(&self) -> (p: u32)
        ensures
            p == rank_points(self.rank),
            p == points_of_label(rank_label(self.rank)),
            1 <= p <= 10,
    {
        self.rank.points()
    }

    /// The card named by a suit label and a rank label, as they are stored;
    /// `None` where either name is unknown (such as the "None" of an empty slot).
    pub fn from_labels(suit: &str, num: &str) -> (c: Option<Card>)
        ensures
            c == parse_card(suit@, num@),
    {
        match (Suit::from_label(suit), Rank::from_label(num)) {
            (Some(s), Some(r)) => Some(Card { suit: s, rank: r }),
            _ => None,
        }
    }

    /// The suit label and the rank label of the card.
    pub fn labels(&self) -> (l: (String, String))
        ensures
            l.0@ == suit_label(self.suit),
            l.1@ == rank_label(self.rank),
    {
        (self.suit.label(), self.rank.label())
    }
}

/// The labels shown for a card slot: those of the card it holds, or "None"
/// and "None" where it holds none.
pub fn slot_labels_of(slot: &Option<Card>) -> (l: (String, String))
    ensures
        (l.0@, l.1@) == slot_labels(*slot),
{
    match slot {
        Some(card) => card.labels(),
        None => (String::from_str("None"), String::from_str("None")),
    }
}

} // verus!
