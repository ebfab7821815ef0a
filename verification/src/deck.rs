use vstd::prelude::*;
use vstd::seq_lib::lemma_multiset_commutative;

use crate::model::card_id;
use crate::model::full_deck_ids;
use crate::model::pile_ids;

use rand::Rng;

verus! {

/// The four suits of a standard deck.
#[derive(Clone, Copy, PartialEq, Eq, Structural, Debug)]
pub enum CardSymbol {
    Clubs,
    Diamonds,
    Hearts,
    Spades,
}

/// The thirteen ranks, Ace low through King high.
#[derive(Clone, Copy, PartialEq, Eq, PartialOrd, Ord, Structural, Debug)]
pub enum CardValue {
    Ace,
    Two,
    Three,
    Four,
    Five,
    Six,
    Seven,
    Eight,
    Nine,
    Ten,
    Jack,
    Queen,
    King,
}

/// Position of a rank in the Ace..King progression (0 through 12).
pub open spec fn value_rank(v: CardValue) -> int {
    match v {
        CardValue::Ace => 0,
        CardValue::Two => 1,
        CardValue::Three => 2,
        CardValue::Four => 3,
        CardValue::Five => 4,
        CardValue::Six => 5,
        CardValue::Seven => 6,
        CardValue::Eight => 7,
        CardValue::Nine => 8,
        CardValue::Ten => 9,
        CardValue::Jack => 10,
        CardValue::Queen => 11,
        CardValue::King => 12,
    }
}

/// Rank adjacency: `next` comes immediately after `prev` (no wraparound).
pub open spec fn spec_followed_by(prev: CardValue, next: CardValue) -> bool {
    value_rank(next) == value_rank(prev) + 1
}

impl CardValue {
    /// Whether `other` is the rank immediately after `self`.
    pub fn is_followed_by(&self, other: CardValue) -> (r: bool)
        ensures
            r == spec_followed_by(*self, other),
    {
        match (self, other) {
            (CardValue::Ace, CardValue::Two) => true,
            (CardValue::Two, CardValue::Three) => true,
            (CardValue::Three, CardValue::Four) => true,
            (CardValue::Four, CardValue::Five) => true,
            (CardValue::Five, CardValue::Six) => true,
            (CardValue::Six, CardValue::Seven) => true,
            (CardValue::Seven, CardValue::Eight) => true,
            (CardValue::Eight, CardValue::Nine) => true,
            (CardValue::Nine, CardValue::Ten) => true,
            (CardValue::Ten, CardValue::Jack) => true,
            (CardValue::Jack, CardValue::Queen) => true,
            (CardValue::Queen, CardValue::King) => true,
            _ => false,
        }
    }
}

/// One card: rank, suit, and a mutable face-up flag.
#[derive(Clone, Copy, Debug)]
pub struct Card {
    pub value: CardValue,
    pub symbol: CardSymbol,
    pub is_face_up: bool,
}

fn rank_index(v: CardValue) -> (r: u8)
    ensures
        r as int == value_rank(v),
{
    match v {
        CardValue::Ace => 0,
        CardValue::Two => 1,
        CardValue::Three => 2,
        CardValue::Four => 3,
        CardValue::Five => 4,
        CardValue::Six => 5,
        CardValue::Seven => 6,
        CardValue::Eight => 7,
        CardValue::Nine => 8,
        CardValue::Ten => 9,
        CardValue::Jack => 10,
        CardValue::Queen => 11,
        CardValue::King => 12,
    }
}

// Cards compare by rank alone: a deliberately narrow notion used only by
// internal comparisons. Whether two cards are the same physical card is a
// separate question of rank and suit together.
impl PartialEq for Card {
    fn eq(&self, other: &Self) -> (r: bool) {
        self.value == other.value
    }

    fn ne(&self, other: &Self) -> (r: bool) {
        self.value != other.value
    }
}

impl vstd::std_specs::cmp::PartialEqSpecImpl for Card {
    open spec fn obeys_eq_spec() -> bool {
        true
    }

    open spec fn eq_spec(&self, other: &Card) -> bool {
        self.value == other.value
    }
}

impl Eq for Card {

}

impl PartialOrd for Card {
    fn ge(&self, other: &Self) -> (r: bool) {
        rank_index(self.value) >= rank_index(other.value)
    }

    fn gt(&self, other: &Self) -> (r: bool) {
        rank_index(self.value) > rank_index(other.value)
    }

    fn le(&self, other: &Self) -> (r: bool) {
        rank_index(self.value) <= rank_index(other.value)
    }

    fn lt(&self, other: &Self) -> (r: bool) {
        rank_index(self.value) < rank_index(other.value)
    }

    fn partial_cmp(&self, other: &Self) -> (r: Option<core::cmp::Ordering>) {
        if self.lt(other) {
            Some(core::cmp::Ordering::Less)
        } else if self.gt(other) {
            Some(core::cmp::Ordering::Greater)
        } else {
            Some(core::cmp::Ordering::Equal)
        }
    }
}

impl vstd::std_specs::cmp::PartialOrdSpecImpl for Card {
    open spec fn obeys_partial_cmp_spec() -> bool {
        true
    }

    open spec fn partial_cmp_spec(&self, other: &Card) -> Option<core::cmp::Ordering> {
        if value_rank(self.value) < value_rank(other.value) {
            Some(core::cmp::Ordering::Less)
        } else if value_rank(self.value) > value_rank(other.value) {
            Some(core::cmp::Ordering::Greater)
        } else {
            Some(core::cmp::Ordering::Equal)
        }
    }
}

/// The color classification: true for the black suits (Clubs, Spades).
pub open spec fn spec_is_black(c: Card) -> bool {
    c.symbol == CardSymbol::Clubs || c.symbol == CardSymbol::Spades
}

impl Card {
    /// Color of the card: true for black (Clubs, Spades), false for red.
    pub fn get_color(&self) -> (r: bool)
        ensures
            r == spec_is_black(*self),
    {
        self.symbol == CardSymbol::Clubs || self.symbol == CardSymbol::Spades
    }
}

/// The rank at position `i` of the Ace..King progression.
pub open spec fn rank_of_index(i: int) -> CardValue {
    if i == 0 {
        CardValue::Ace
    } else if i == 1 {
        CardValue::Two
    } else if i == 2 {
        CardValue::Three
    } else if i == 3 {
        CardValue::Four
    } else if i == 4 {
        CardValue::Five
    } else if i == 5 {
        CardValue::Six
    } else if i == 6 {
        CardValue::Seven
    } else if i == 7 {
        CardValue::Eight
    } else if i == 8 {
        CardValue::Nine
    } else if i == 9 {
        CardValue::Ten
    } else if i == 10 {
        CardValue::Jack
    } else if i == 11 {
        CardValue::Queen
    } else {
        CardValue::King
    }
}

/// The suit at position `i` of the fixed Clubs, Diamonds, Hearts, Spades
/// enumeration.
pub open spec fn suit_of_index(i: int) -> CardSymbol {
    if i == 0 {
        CardSymbol::Clubs
    } else if i == 1 {
        CardSymbol::Diamonds
    } else if i == 2 {
        CardSymbol::Hearts
    } else {
        CardSymbol::Spades
    }
}

/// Card number `i` of the ordered deck: rank-major, suit-minor, face down.
pub open spec fn deck_card(i: int) -> Card {
    Card { value: rank_of_index(i / 4), symbol: suit_of_index(i % 4), is_face_up: false }
}

/// The full 52-card set in its fixed order, all face down.
pub open spec fn ordered_deck() -> Seq<Card> {
    Seq::new(52, |i: int| deck_card(i))
}

fn rank_from_index(i: u8) -> (r: CardValue)
    requires
        i < 13,
    ensures
        r == rank_of_index(i as int),
{
    match i {
        0 => CardValue::Ace,
        1 => CardValue::Two,
        2 => CardValue::Three,
        3 => CardValue::Four,
        4 => CardValue::Five,
        5 => CardValue::Six,
        6 => CardValue::Seven,
        7 => CardValue::Eight,
        8 => CardValue::Nine,
        9 => CardValue::Ten,
        10 => CardValue::Jack,
        11 => CardValue::Queen,
        _ => CardValue::King,
    }
}

fn suit_from_index(i: u8) -> (r: CardSymbol)
    requires
        i < 4,
    ensures
        r == suit_of_index(i as int),
{
    match i {
        0 => CardSymbol::Clubs,
        1 => CardSymbol::Diamonds,
        2 => CardSymbol::Hearts,
        _ => CardSymbol::Spades,
    }
}

/// Builds the ordered 52-card set, all face down.
fn new_deck() -> (deck: Vec<Card>)
    ensures
        deck@ == ordered_deck(),
{
    let mut deck: Vec<Card> = Vec::new();
    for v in 0..13u8
        invariant
            deck@.len() == 4 * v,
            forall|k: int| 0 <= k < deck@.len() ==> deck@[k] == deck_card(k),
    {
        for s in 0..4u8
            invariant
                v < 13,
                deck@.len() == 4 * v + s,
                forall|k: int| 0 <= k < deck@.len() ==> deck@[k] == deck_card(k),
        {
            deck.push(Card {
                value: rank_from_index(v),
                symbol: suit_from_index(s),
                is_face_up: false,
            });
            proof {
                let k = 4 * v + s;
                assert(k / 4 == v as int && k % 4 == s as int) by (nonlinear_arith)
                    requires
                        k == 4 * v + s,
                        0 <= s < 4,
                        0 <= v,
                ;
            }
        }
    }
    proof {
        assert(deck@ =~= ordered_deck());
    }
    deck
}

/// Relies on rand::thread_rng and rand::Rng::gen_range: the sampled value
/// lies in the given range; the range is non-empty, so the call cannot
/// panic. Nothing further is assumed of the outcome.
#[verifier::external_body]
fn random_index(bound: usize) -> (r: usize)
    requires
        bound > 0,
    ensures
        r < bound,
{
    rand::thread_rng().gen_range(0..bound)
}

/// Builds the ordered deck, then performs `shuffle_times` random
/// transpositions of two uniformly chosen positions (possibly equal, a no-op
/// swap). The result is always a permutation of the full 52-card set, every
/// card face down.
pub fn new_shuffled_deck(shuffle_times: i32) -> (deck: Vec<Card>)
    ensures
        deck@.len() == 52,
        deck@.to_multiset() == ordered_deck().to_multiset(),
        pile_ids(deck@) == full_deck_ids(),
        forall|k: int| 0 <= k < deck@.len() ==> !(#[trigger] deck@[k]).is_face_up,
{
    let mut deck = new_deck();
    let mut round: i32 = 0;
    while round < shuffle_times
        invariant
            deck@.len() == 52,
            deck@.to_multiset() == ordered_deck().to_multiset(),
            pile_ids(deck@) == full_deck_ids(),
            forall|k: int| 0 <= k < deck@.len() ==> !(#[trigger] deck@[k]).is_face_up,
        decreases shuffle_times - round,
    {
        let pos_one = random_index(deck.len());
        let pos_two = random_index(deck.len());

        let ghost before = deck@;
        let temp = deck[pos_one];
        let other = deck[pos_two];
        deck[pos_one] = other;
        deck[pos_two] = temp;
        proof {
            lemma_swap_preserves_multiset(before, pos_one as int, pos_two as int);
            let ids = before.map_values(|x: Card| card_id(x));
            lemma_swap_preserves_multiset(ids, pos_one as int, pos_two as int);
            assert(deck@.map_values(|x: Card| card_id(x)) =~= ids.update(
                pos_one as int,
                ids[pos_two as int],
            ).update(pos_two as int, ids[pos_one as int]));
        }
        round = round + 1;
    }
    deck
}

/// Exchanging two positions of a sequence leaves its multiset of elements
/// unchanged.
proof fn lemma_swap_preserves_multiset<A>(s: Seq<A>, i: int, j: int)
    requires
        0 <= i < s.len(),
        0 <= j < s.len(),
    ensures
        s.update(i, s[j]).update(j, s[i]).to_multiset() == s.to_multiset(),
{
    broadcast use vstd::seq_lib::group_to_multiset_ensures;
    broadcast use vstd::multiset::group_multiset_axioms;
    broadcast use vstd::multiset::group_multiset_properties;

    if i == j {
        assert(s.update(i, s[j]).update(j, s[i]) =~= s);
    } else {
        let s1 = s.update(i, s[j]);
        let s2 = s1.update(j, s[i]);
        assert(s1.to_multiset() == s.to_multiset().insert(s[j]).remove(s[i]));
        assert(s1[j] == s[j]);
        assert(s2.to_multiset() == s1.to_multiset().insert(s[i]).remove(s[j]));
        assert(s.to_multiset().count(s[i]) > 0) by {
            assert(s.contains(s[i]));
        }
        assert(s.to_multiset().count(s[j]) > 0) by {
            assert(s.contains(s[j]));
        }
        assert(s2.to_multiset() =~= s.to_multiset());
    }
}

} // verus!
