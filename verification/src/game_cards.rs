//! The action cards and the deck they are drawn from.

use crate::rng::shuffle;
use rand_chacha::ChaCha8Rng;
use vstd::prelude::*;
use vstd::seq_lib::*;

verus! {

/// A card of the action deck. Cards have no identity of their own: two cards
/// of one kind are the same value.
#[derive(Debug, PartialEq, Eq, Copy, Clone, Structural)]
pub enum GameCard {
    O1,
    O2,
    OxygenSiphon,
    Shield,
    HackSuit,
    TractorBeam,
    RocketBooster,
    LaserBlast,
    HoleInSuit,
    Tether,
}

/// How many cards of kind `card` the sequence holds.
pub open spec fn count_of(cards: Seq<GameCard>, card: GameCard) -> nat {
    cards.to_multiset().count(card)
}

/// One more card raises the count of its kind by one and no other count.
pub proof fn lemma_count_push(cards: Seq<GameCard>, added: GameCard, card: GameCard)
    ensures
        count_of(cards.push(added), card) == count_of(cards, card) + if added == card {
            1nat
        } else {
            0nat
        },
{
    broadcast use {group_to_multiset_ensures, vstd::multiset::group_multiset_axioms};

    assert(cards.push(added).to_multiset() =~= cards.to_multiset().insert(added));
}

/// One card less lowers the count of its kind by one and no other count.
pub proof fn lemma_count_remove(cards: Seq<GameCard>, index: int, card: GameCard)
    requires
        0 <= index < cards.len(),
    ensures
        count_of(cards, cards[index]) > 0,
        count_of(cards.remove(index), card) == count_of(cards, card) - if cards[index] == card {
            1int
        } else {
            0int
        },
{
    broadcast use {group_to_multiset_ensures, vstd::multiset::group_multiset_axioms};

    assert(cards.contains(cards[index]));
    assert(cards.remove(index).to_multiset() =~= cards.to_multiset().remove(cards[index]));
}

/// The position of the first `card` in `cards`, or the length of `cards`
/// where there is none.
pub open spec fn first_index(cards: Seq<GameCard>, card: GameCard) -> int
    decreases cards.len(),
{
    if cards.len() == 0 || cards[0] == card {
        0
    } else {
        1 + first_index(cards.drop_first(), card)
    }
}

/// `cards` with its first `card` taken out; `cards` itself where it holds none.
pub open spec fn without_first(cards: Seq<GameCard>, card: GameCard) -> Seq<GameCard> {
    if cards.contains(card) {
        cards.remove(first_index(cards, card))
    } else {
        cards
    }
}

/// `first_index` is the least position that holds `card`, and it lies inside
/// `cards` exactly when `cards` contains `card`.
pub proof fn lemma_first_index(cards: Seq<GameCard>, card: GameCard)
    ensures
        0 <= first_index(cards, card) <= cards.len(),
        first_index(cards, card) < cards.len() <==> cards.contains(card),
        first_index(cards, card) < cards.len() ==> cards[first_index(cards, card)] == card,
        forall|j: int| 0 <= j < first_index(cards, card) ==> cards[j] != card,
    decreases cards.len(),
{
    if cards.len() == 0 || cards[0] == card {
    } else {
        let rest = cards.drop_first();
        lemma_first_index(rest, card);
        let k = first_index(rest, card);
        assert forall|j: int| 0 <= j < 1 + k implies cards[j] != card by {
            if j > 0 {
                assert(cards[j] == rest[j - 1]);
            }
        }
        if k < rest.len() {
            assert(cards[1 + k] == rest[k]);
        }
        if cards.contains(card) {
            let i = choose|i: int| 0 <= i < cards.len() && cards[i] == card;
            assert(rest[i - 1] == card);
        }
    }
}

/// A position that holds `card` with no `card` before it is the first index.
pub proof fn lemma_first_index_is(cards: Seq<GameCard>, card: GameCard, i: int)
    requires
        0 <= i < cards.len(),
        cards[i] == card,
        forall|j: int| 0 <= j < i ==> cards[j] != card,
    ensures
        first_index(cards, card) == i,
{
    lemma_first_index(cards, card);
}

/// Taking the first `card` out lowers the count of that kind by one and
/// leaves every other count alone.
pub proof fn lemma_without_first_count(cards: Seq<GameCard>, card: GameCard, other: GameCard)
    requires
        cards.contains(card),
    ensures
        without_first(cards, card).len() == cards.len() - 1,
        count_of(cards, card) > 0,
        count_of(without_first(cards, card), other) == if other == card {
            count_of(cards, other) - 1
        } else {
            count_of(cards, other) as int
        },
{
    lemma_first_index(cards, card);
    lemma_count_remove(cards, first_index(cards, card), other);
}

/// Which cards the deck starts with: how many of each kind.
pub open spec fn copies(card: GameCard) -> nat {
    match card {
        GameCard::O1 => 38,
        GameCard::O2 => 20,
        GameCard::OxygenSiphon => 3,
        GameCard::Shield => 4,
        GameCard::HackSuit => 3,
        GameCard::TractorBeam => 4,
        GameCard::RocketBooster => 4,
        GameCard::LaserBlast => 4,
        GameCard::HoleInSuit => 4,
        GameCard::Tether => 4,
    }
}

/// `n` cards of one kind.
pub open spec fn repeated<T>(card: T, n: nat) -> Seq<T> {
    Seq::new(n, |i: int| card)
}

/// The available pile of a fresh deck before it is shuffled.
pub open spec fn starting_cards() -> Seq<GameCard> {
    repeated(GameCard::O1, 38) + repeated(GameCard::O2, 10) + repeated(GameCard::O2, 10)
        + repeated(GameCard::OxygenSiphon, 3) + repeated(GameCard::Shield, 4) + repeated(
        GameCard::HackSuit,
        3,
    ) + repeated(GameCard::TractorBeam, 4) + repeated(GameCard::RocketBooster, 4) + repeated(
        GameCard::LaserBlast,
        4,
    ) + repeated(GameCard::HoleInSuit, 4) + repeated(GameCard::Tether, 4)
}

/// `n` cards of one kind count `n` of that kind and none of any other.
pub proof fn lemma_repeated_count(card: GameCard, n: nat, other: GameCard)
    ensures
        count_of(repeated(card, n), other) == if other == card {
            n
        } else {
            0
        },
    decreases n,
{
    broadcast use group_to_multiset_ensures;

    if n == 0 {
        assert(repeated(card, 0) =~= Seq::<GameCard>::empty());
        assert(!Seq::<GameCard>::empty().contains(other));
    } else {
        lemma_repeated_count(card, (n - 1) as nat, other);
        assert(repeated(card, n) =~= repeated(card, (n - 1) as nat).push(card));
    }
}

/// Counts add up over two sequences laid end to end.
pub proof fn lemma_count_concat(a: Seq<GameCard>, b: Seq<GameCard>, card: GameCard)
    ensures
        count_of(a + b, card) == count_of(a, card) + count_of(b, card),
{
    lemma_multiset_commutative(a, b);
}

/// The fresh deck holds of each kind as many cards as `copies` says.
pub proof fn lemma_starting_cards_count(card: GameCard)
    ensures
        count_of(starting_cards(), card) == copies(card),
        starting_cards().len() == 88,
{
    let pile1 = repeated(GameCard::O1, 38);
    let pile2 = pile1 + repeated(GameCard::O2, 10);
    let pile3 = pile2 + repeated(GameCard::O2, 10);
    let pile4 = pile3 + repeated(GameCard::OxygenSiphon, 3);
    let pile5 = pile4 + repeated(GameCard::Shield, 4);
    let pile6 = pile5 + repeated(GameCard::HackSuit, 3);
    let pile7 = pile6 + repeated(GameCard::TractorBeam, 4);
    let pile8 = pile7 + repeated(GameCard::RocketBooster, 4);
    let pile9 = pile8 + repeated(GameCard::LaserBlast, 4);
    let pile10 = pile9 + repeated(GameCard::HoleInSuit, 4);
    assert(pile3.len() == 58);
    assert(pile5.len() == 65);
    assert(pile7.len() == 72);
    assert(pile8.len() == 76);
    assert(pile9.len() == 80);
    assert(pile10.len() == 84);
    lemma_repeated_count(GameCard::O1, 38, card);
    lemma_repeated_count(GameCard::O2, 10, card);
    lemma_repeated_count(GameCard::OxygenSiphon, 3, card);
    lemma_repeated_count(GameCard::Shield, 4, card);
    lemma_repeated_count(GameCard::HackSuit, 3, card);
    lemma_repeated_count(GameCard::TractorBeam, 4, card);
    lemma_repeated_count(GameCard::RocketBooster, 4, card);
    lemma_repeated_count(GameCard::LaserBlast, 4, card);
    lemma_repeated_count(GameCard::HoleInSuit, 4, card);
    lemma_repeated_count(GameCard::Tether, 4, card);
    lemma_count_concat(pile1, repeated(GameCard::O2, 10), card);
    lemma_count_concat(pile2, repeated(GameCard::O2, 10), card);
    lemma_count_concat(pile3, repeated(GameCard::OxygenSiphon, 3), card);
    lemma_count_concat(pile4, repeated(GameCard::Shield, 4), card);
    lemma_count_concat(pile5, repeated(GameCard::HackSuit, 3), card);
    lemma_count_concat(pile6, repeated(GameCard::TractorBeam, 4), card);
    lemma_count_concat(pile7, repeated(GameCard::RocketBooster, 4), card);
    lemma_count_concat(pile8, repeated(GameCard::LaserBlast, 4), card);
    lemma_count_concat(pile9, repeated(GameCard::HoleInSuit, 4), card);
    lemma_count_concat(pile10, repeated(GameCard::Tether, 4), card);
}

/// Where the first `card` of `cards` lies, if there is one.
pub fn position(cards: &Vec<GameCard>, card: GameCard) -> (found: Option<usize>)
    ensures
        found is Some <==> cards@.contains(card),
        found matches Some(i) ==> {
            &&& i == first_index(cards@, card)
            &&& i < cards@.len()
            &&& cards@[i as int] == card
        },
{
    let mut i: usize = 0;
    while i < cards.len()
        invariant
            i <= cards@.len(),
            forall|j: int| 0 <= j < i ==> cards@[j] != card,
        decreases cards@.len() - i,
    {
        if cards[i] == card {
            proof {
                lemma_first_index_is(cards@, card, i as int);
            }
            return Some(i);
        }
        i += 1;
    }
    None
}

/// Appends `n` cards of kind `card`.
pub(crate) fn push_copies<T: Copy>(cards: &mut Vec<T>, card: T, n: usize)
    ensures
        final(cards)@ == old(cards)@ + repeated(card, n as nat),
{
    let mut i: usize = 0;
    while i < n
        invariant
            i <= n,
            cards@ == old(cards)@ + repeated(card, i as nat),
        decreases n - i,
    {
        cards.push(card);
        i += 1;
        assert(cards@ =~= old(cards)@ + repeated(card, i as nat));
    }
}

/// The action deck: a pile to draw from and a pile of spent cards.
#[derive(Debug)]
pub struct GameDeck {
    pub available: Vec<GameCard>,
    pub discard: Vec<GameCard>,
}

impl GameDeck {
    /// How many cards of kind `card` lie in the two piles together.
    pub open spec fn holds(&self, card: GameCard) -> nat {
        count_of(self.available@, card) + count_of(self.discard@, card)
    }

    /// How many cards lie in the two piles together.
    pub open spec fn size(&self) -> nat {
        self.available@.len() + self.discard@.len()
    }

    /// The full deck in its fixed order, with nothing discarded.
    pub fn new() -> (deck: Self)
        ensures
            deck.available@ == starting_cards(),
            deck.discard@ == Seq::<GameCard>::empty(),
    {
        let mut available = Vec::new();
        assert(available@ =~= Seq::<GameCard>::empty());
        push_copies(&mut available, GameCard::O1, 38);
        assert(available@ =~= repeated(GameCard::O1, 38));
        push_copies(&mut available, GameCard::O2, 10);
        push_copies(&mut available, GameCard::O2, 10);
        push_copies(&mut available, GameCard::OxygenSiphon, 3);
        push_copies(&mut available, GameCard::Shield, 4);
        push_copies(&mut available, GameCard::HackSuit, 3);
        push_copies(&mut available, GameCard::TractorBeam, 4);
        push_copies(&mut available, GameCard::RocketBooster, 4);
        push_copies(&mut available, GameCard::LaserBlast, 4);
        push_copies(&mut available, GameCard::HoleInSuit, 4);
        push_copies(&mut available, GameCard::Tether, 4);
        Self { available, discard: Vec::new() }
    }

    /// The full deck in an order that `rng` decides, with nothing discarded.
    pub fn shuffled(rng: &mut ChaCha8Rng) -> (deck: Self)
        ensures
            deck.available@.to_multiset() == starting_cards().to_multiset(),
            deck.discard@ == Seq::<GameCard>::empty(),
    {
        let mut deck = Self::new();
        shuffle(&mut deck.available, rng);
        deck
    }

    /// Reorders the available pile as `rng` decides; the pile keeps its cards.
    pub fn shuffle(&mut self, rng: &mut ChaCha8Rng)
        ensures
            final(self).available@.to_multiset() == old(self).available@.to_multiset(),
            final(self).discard@ == old(self).discard@,
    {
        shuffle(&mut self.available, rng);
    }

    /// Takes the first `card` out of the available pile. For the opening deal.
    pub fn take(&mut self, card: GameCard) -> (taken: GameCard)
        requires
            old(self).available@.contains(card),
        ensures
            taken == card,
            final(self).available@ == without_first(old(self).available@, card),
            final(self).discard@ == old(self).discard@,
    {
        proof {
            lemma_first_index(self.available@, card);
        }
        match position(&self.available, card) {
            Some(idx) => self.available.remove(idx),
            None => card,
        }
    }

    /// Draws the top card of the available pile. Where that pile is empty,
    /// the discard pile first becomes the available pile, in an order that
    /// `rng` decides, and the discard pile is left empty. A draw from a pile
    /// that holds a card leaves `rng` alone.
    pub fn draw(&mut self, rng: &mut ChaCha8Rng) -> (card: GameCard)
        requires
            old(self).size() > 0,
        ensures
            old(self).available@.len() > 0 ==> {
                &&& card == old(self).available@.last()
                &&& final(self).available@ == old(self).available@.drop_last()
                &&& final(self).discard@ == old(self).discard@
                &&& *final(rng) == *old(rng)
            },
            old(self).available@.len() == 0 ==> {
                &&& final(self).available@.push(card).to_multiset() == old(
                    self,
                ).discard@.to_multiset()
                &&& final(self).discard@ == Seq::<GameCard>::empty()
            },
    {
        broadcast use group_to_multiset_ensures;

        if self.available.is_empty() {
            assert(self.available@ =~= Seq::<GameCard>::empty());
            self.available.append(&mut self.discard);
            assert(self.available@ =~= old(self).discard@);
            shuffle(&mut self.available, rng);
            self.discard.clear();
        }
        let ghost before = self.available@;
        assert(before.len() > 0) by {
            assert(before.to_multiset().len() == before.len());
            assert(old(self).discard@.to_multiset().len() == old(self).discard@.len());
        }
        match self.available.pop() {
            Some(card) => {
                assert(before =~= self.available@.push(card));
                card
            },
            None => GameCard::O1,
        }
    }

    /// Lays `card` on the discard pile.
    pub fn add_to_discard(&mut self, card: GameCard)
        ensures
            final(self).discard@ == old(self).discard@.push(card),
            final(self).available@ == old(self).available@,
    {
        self.discard.push(card);
    }

    /// Lays `card` on top of the available pile, so that it is drawn next.
    pub fn add_to_available(&mut self, card: GameCard)
        ensures
            final(self).available@ == old(self).available@.push(card),
            final(self).discard@ == old(self).discard@,
    {
        self.available.push(card);
    }
}

} // verus!
