//! The cards of the space track and the deck they are drawn from.

use crate::game_cards::{push_copies, repeated};
use crate::rng::shuffle;
use rand_chacha::ChaCha8Rng;
use vstd::prelude::*;

verus! {

/// A card of the space track. A drawn card joins the track of the player who
/// drew it and never returns to the deck.
#[derive(Debug, PartialEq, Eq, Copy, Clone, Structural)]
pub enum SpaceCard {
    BlankSpace,
    UsefulJunk,
    MysteriousNebula,
    Hyperspace,
    Meteoroid,
    CosmicRadiation,
    AsteroidField,
    GravitationalAnomaly,
    WormHole,
    SolarFlare,
}

/// The track deck before it is shuffled.
pub open spec fn starting_track() -> Seq<SpaceCard> {
    repeated(SpaceCard::BlankSpace, 9) + repeated(SpaceCard::UsefulJunk, 5) + repeated(
        SpaceCard::MysteriousNebula,
        2,
    ) + repeated(SpaceCard::Hyperspace, 1) + repeated(SpaceCard::Meteoroid, 4) + repeated(
        SpaceCard::CosmicRadiation,
        6,
    ) + repeated(SpaceCard::AsteroidField, 2) + repeated(SpaceCard::GravitationalAnomaly, 4)
        + repeated(SpaceCard::WormHole, 4) + repeated(SpaceCard::SolarFlare, 5)
}

/// The track deck: drawn from the front, never refilled.
pub struct SpaceDeck(pub Vec<SpaceCard>);

impl View for SpaceDeck {
    type V = Seq<SpaceCard>;

    /// The cards still to come, the next one first.
    open spec fn view(&self) -> Seq<SpaceCard> {
        self.0@
    }
}

impl SpaceDeck {
    /// The full track deck in its fixed order.
    pub fn new() -> (deck: Self)
        ensures
            deck@ == starting_track(),
    {
        let mut cards = Vec::new();
        assert(cards@ =~= Seq::<SpaceCard>::empty());
        push_copies(&mut cards, SpaceCard::BlankSpace, 9);
        assert(cards@ =~= repeated(SpaceCard::BlankSpace, 9));
        push_copies(&mut cards, SpaceCard::UsefulJunk, 5);
        push_copies(&mut cards, SpaceCard::MysteriousNebula, 2);
        push_copies(&mut cards, SpaceCard::Hyperspace, 1);
        push_copies(&mut cards, SpaceCard::Meteoroid, 4);
        push_copies(&mut cards, SpaceCard::CosmicRadiation, 6);
        push_copies(&mut cards, SpaceCard::AsteroidField, 2);
        push_copies(&mut cards, SpaceCard::GravitationalAnomaly, 4);
        push_copies(&mut cards, SpaceCard::WormHole, 4);
        push_copies(&mut cards, SpaceCard::SolarFlare, 5);
        Self(cards)
    }

    /// The full track deck in an order that `rng` decides.
    pub fn shuffled(rng: &mut ChaCha8Rng) -> (deck: Self)
        ensures
            deck@.to_multiset() == starting_track().to_multiset(),
    {
        let mut deck = Self::new();
        shuffle(&mut deck.0, rng);
        deck
    }

    /// Whether no card is left to draw.
    pub fn is_empty(&self) -> (empty: bool)
        ensures
            empty == (self@.len() == 0),
    {
        self.0.is_empty()
    }

    /// Draws the card at the front of the deck.
    pub fn draw(&mut self) -> (card: SpaceCard)
        requires
            old(self)@.len() > 0,
        ensures
            card == old(self)@.first(),
            final(self)@ == old(self)@.drop_first(),
    {
        let card = self.0.remove(0);
        assert(self@ =~= old(self)@.drop_first());
        card
    }
}

} // verus!
