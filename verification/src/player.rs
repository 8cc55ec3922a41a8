//! One player: whether they live, the cards they hold, the track behind them.

use crate::errors::SelfishError;
use crate::game_cards::{
    count_of, lemma_count_push, position, without_first, GameCard,
};
use crate::rng::random_index;
use crate::space_cards::SpaceCard;
use rand_chacha::ChaCha8Rng;
use vstd::prelude::*;
use vstd::seq_lib::*;

verus! {

/// A player as the rules see them.
pub struct PlayerView {
    pub alive: bool,
    pub hand: Seq<GameCard>,
    pub space: Seq<SpaceCard>,
}

/// A player of the game.
#[derive(Debug)]
pub struct Player {
    pub alive: bool,
    /// The cards held, in the order in which they came.
    pub hand: Vec<GameCard>,
    /// The space cards drawn so far, the latest last.
    pub space: Vec<SpaceCard>,
}

impl View for Player {
    type V = PlayerView;

    open spec fn view(&self) -> PlayerView {
        PlayerView { alive: self.alive, hand: self.hand@, space: self.space@ }
    }
}

/// The kinds of card in `cards`, each once, in the order in which they first
/// occur.
pub open spec fn distinct_kinds(cards: Seq<GameCard>) -> Seq<GameCard>
    decreases cards.len(),
{
    if cards.len() == 0 {
        Seq::empty()
    } else {
        let before = distinct_kinds(cards.drop_last());
        if before.contains(cards.last()) {
            before
        } else {
            before.push(cards.last())
        }
    }
}

/// `distinct_kinds` holds exactly the kinds that occur in `cards`, and none
/// of them twice.
pub proof fn lemma_distinct_kinds(cards: Seq<GameCard>)
    ensures
        forall|card: GameCard| distinct_kinds(cards).contains(card) <==> cards.contains(card),
        distinct_kinds(cards).no_duplicates(),
    decreases cards.len(),
{
    if cards.len() == 0 {
    } else {
        let front = cards.drop_last();
        let before = distinct_kinds(front);
        let kinds = distinct_kinds(cards);
        lemma_distinct_kinds(front);
        assert forall|card: GameCard| kinds.contains(card) <==> cards.contains(card) by {
            if cards.contains(card) {
                let i = choose|i: int| 0 <= i < cards.len() && cards[i] == card;
                if i < cards.len() - 1 {
                    assert(front[i] == card);
                    assert(front.contains(card));
                    assert(before.contains(card));
                    let j = choose|j: int| 0 <= j < before.len() && before[j] == card;
                    assert(kinds[j] == card);
                } else if !before.contains(card) {
                    assert(kinds[before.len() as int] == card);
                }
            }
            if kinds.contains(card) {
                let j = choose|j: int| 0 <= j < kinds.len() && kinds[j] == card;
                if j < before.len() {
                    assert(before[j] == card);
                    assert(before.contains(card));
                    assert(front.contains(card));
                    let i = choose|i: int| 0 <= i < front.len() && front[i] == card;
                    assert(cards[i] == card);
                } else {
                    assert(cards[cards.len() - 1] == card);
                }
            }
        }
    }
}

impl Player {
    /// A living player with no cards and no track.
    pub fn new() -> (player: Player)
        ensures
            player.alive,
            player.hand@ == Seq::<GameCard>::empty(),
            player.space@ == Seq::<SpaceCard>::empty(),
    {
        Player { alive: true, hand: Vec::new(), space: Vec::new() }
    }

    /// Adds `card` to the hand.
    pub fn give(&mut self, card: GameCard)
        ensures
            final(self).hand@ == old(self).hand@.push(card),
            final(self).alive == old(self).alive,
            final(self).space@ == old(self).space@,
    {
        self.hand.push(card);
    }

    /// Whether the hand holds a card of kind `card`.
    pub fn has_card(&self, card: &GameCard) -> (held: bool)
        ensures
            held == self.hand@.contains(*card),
    {
        position(&self.hand, *card).is_some()
    }

    /// How many cards of kind `card` the hand holds.
    pub fn count_cards(&self, card: &GameCard) -> (count: usize)
        ensures
            count == count_of(self.hand@, *card),
    {
        broadcast use group_to_multiset_ensures;

        let mut count: usize = 0;
        let mut i: usize = 0;
        assert(self.hand@.take(0) =~= Seq::<GameCard>::empty());
        assert(!Seq::<GameCard>::empty().contains(*card));
        while i < self.hand.len()
            invariant
                i <= self.hand@.len(),
                count <= i,
                count == count_of(self.hand@.take(i as int), *card),
            decreases self.hand@.len() - i,
        {
            assert(self.hand@.take(i + 1) =~= self.hand@.take(i as int).push(self.hand@[i as int]));
            proof {
                lemma_count_push(self.hand@.take(i as int), self.hand@[i as int], *card);
            }
            if self.hand[i] == *card {
                count += 1;
            }
            i += 1;
        }
        assert(self.hand@.take(i as int) =~= self.hand@);
        count
    }

    /// The kinds of card in the hand, each once, in the order in which they
    /// first occur.
    pub fn unique_cards(&self) -> (kinds: Vec<GameCard>)
        ensures
            kinds@ == distinct_kinds(self.hand@),
    {
        let mut kinds: Vec<GameCard> = Vec::new();
        let mut i: usize = 0;
        assert(self.hand@.take(0) =~= Seq::<GameCard>::empty());
        while i < self.hand.len()
            invariant
                i <= self.hand@.len(),
                kinds@ == distinct_kinds(self.hand@.take(i as int)),
            decreases self.hand@.len() - i,
        {
            let card = self.hand[i];
            assert(self.hand@.take(i + 1).drop_last() =~= self.hand@.take(i as int));
            if position(&kinds, card).is_none() {
                kinds.push(card);
            }
            i += 1;
        }
        assert(self.hand@.take(i as int) =~= self.hand@);
        kinds
    }

    /// Takes the first card of kind `card` out of the hand, or fails where
    /// the hand holds none.
    pub fn remove_card(&mut self, card: &GameCard) -> (removed: Result<(), SelfishError>)
        ensures
            final(self).alive == old(self).alive,
            final(self).space@ == old(self).space@,
            final(self).hand@ == without_first(old(self).hand@, *card),
            old(self).hand@.contains(*card) ==> removed is Ok,
            !old(self).hand@.contains(*card) ==> removed == Err::<(), SelfishError>(
                SelfishError::PlayerDoesNotHaveThisCard(*card),
            ),
    {
        match position(&self.hand, *card) {
            Some(index) => {
                self.hand.remove(index);
                Ok(())
            },
            None => Err(SelfishError::PlayerDoesNotHaveThisCard(*card)),
        }
    }

    /// Takes out of the hand a card that `rng` picks, or fails on an empty
    /// hand.
    pub fn remove_random_card(&mut self, rng: &mut ChaCha8Rng) -> (removed: Result<
        GameCard,
        SelfishError,
    >)
        ensures
            final(self).alive == old(self).alive,
            final(self).space@ == old(self).space@,
            old(self).hand@.len() == 0 ==> removed == Err::<GameCard, SelfishError>(
                SelfishError::PlayerHasNoCardsLeft,
            ) && final(self).hand@ == old(self).hand@ && *final(rng) == *old(rng),
            old(self).hand@.len() > 0 ==> removed is Ok && exists|index: int|
                0 <= index < old(self).hand@.len() && removed == Ok::<GameCard, SelfishError>(
                    #[trigger] old(self).hand@[index],
                ) && final(self).hand@ == old(self).hand@.remove(index),
    {
        if self.hand.len() == 0 {
            return Err(SelfishError::PlayerHasNoCardsLeft);
        }
        let index = random_index(rng, self.hand.len());
        let card = self.hand.remove(index);
        assert(card == old(self).hand@[index as int]);
        Ok(card)
    }

    /// The space card drawn last, if any was drawn.
    pub fn last_space_card(&self) -> (card: Option<SpaceCard>)
        ensures
            card == if self.space@.len() == 0 {
                None
            } else {
                Some(self.space@.last())
            },
    {
        let n = self.space.len();
        if n == 0 {
            None
        } else {
            Some(self.space[n - 1])
        }
    }

    /// Whether a solar flare is the latest card of the track. Such a player
    /// can neither act nor defend.
    pub fn in_solar_flare(&self) -> (flared: bool)
        ensures
            flared == in_flare(self.space@),
    {
        self.last_space_card() == Some(SpaceCard::SolarFlare)
    }
}

/// Whether a track ends in a solar flare.
pub open spec fn in_flare(space: Seq<SpaceCard>) -> bool {
    space.len() > 0 && space.last() == SpaceCard::SolarFlare
}

} // verus!
