//! What happens to a player who moves along the space track.

use crate::errors::SelfishError;
use crate::game::{Game, PlayerReference};
use crate::game_cards::GameCard;
use crate::player::PlayerView;
use crate::space_cards::SpaceCard;
use crate::state::lemma_hyperspace_run;
use vstd::prelude::*;

verus! {

impl Game {
    /// Carries out the answer `cards` of an agent to a demand for `expected`
    /// discards from the player whose turn it is.
    pub fn forced_discard(&mut self, expected: usize, cards: &Vec<GameCard>) -> (done: Result<
        (),
        SelfishError,
    >)
        requires
            old(self).wf(),
        ensures
            final(self).wf(),
            final(self).agents_unasked(old(self)),
            final(self)@.players.len() == old(self)@.players.len(),
            (final(self)@, done) == old(self)@.forced_discard(expected, cards@),
    {
        if cards.len() != expected {
            return Err(SelfishError::InvalidDiscardCount { expected, actual: cards.len() });
        }
        let seat = self.whose_turn_reference.0;
        let mut i: usize = 0;
        assert(cards@.skip(0) =~= cards@);
        while i < cards.len()
            invariant
                self.wf(),
                i <= cards@.len(),
                cards@.len() == expected,
                self.agents_unasked(old(self)),
                self@.players.len() == old(self)@.players.len(),
                seat == self.whose_turn_reference.0,
                old(self)@.shed(cards@) == self@.shed(cards@.skip(i as int)),
            decreases cards@.len() - i,
        {
            assert(cards@.skip(i as int).drop_first() =~= cards@.skip(i + 1));
            assert(cards@.skip(i as int)[0] == cards@[i as int]);
            let ghost before = self@;
            if !self.spend_from(seat, cards[i]) {
                assert(self@ == before);
                return Err(SelfishError::PlayerDoesNotHaveThisCard(cards[i]));
            }
            i += 1;
        }
        Ok(())
    }

    /// The traveller exchanges tracks with `other`, who must be a living
    /// player of the roster.
    pub fn worm_hole(&mut self, other: &PlayerReference) -> (done: Result<(), SelfishError>)
        requires
            old(self).wf(),
        ensures
            final(self).wf(),
            final(self).agents_unasked(old(self)),
            final(self)@.players.len() == old(self)@.players.len(),
            (final(self)@, done) == old(self)@.worm_hole(*other),
    {
        if other.0 >= self.players.len() || !self.players[other.0].alive {
            return Err(SelfishError::PlayerDoesNotExist(*other));
        }
        let traveller = self.whose_turn_reference;
        self.swap_space(&traveller, other)
    }

    /// The effect of the space card `card` on the player whose turn it is,
    /// on whose track it already lies.
    pub fn land_on(&mut self, card: SpaceCard) -> (done: Result<(), SelfishError>)
        requires
            old(self).wf(),
        ensures
            final(self).wf(),
            final(self)@.players.len() == old(self)@.players.len(),
            old(self)@.landed(card, final(self)@, done),
            !old(self)@.landing_asks(card) ==> final(self).agents_unasked(old(self)),
    {
        let traveller = self.whose_turn_reference.0;
        match card {
            SpaceCard::BlankSpace => Ok(()),
            SpaceCard::SolarFlare => Ok(()),
            SpaceCard::Hyperspace => Ok(()),
            SpaceCard::UsefulJunk => {
                self.draw_card();
                Ok(())
            },
            SpaceCard::MysteriousNebula => {
                let first = self.draw_card();
                let ghost between = self@;
                let second = self.draw_card();
                assert(old(self)@.drew(between, first) && between.drew(self@, second));
                Ok(())
            },
            SpaceCard::Meteoroid => {
                if self.players[traveller].hand.len() > 6 {
                    self.inform(traveller);
                    let cards = self.controllers[traveller].forced_discard(2);
                    let done = self.forced_discard(2, &cards);
                    assert((self@, done) == old(self)@.forced_discard(2, cards@));
                    done
                } else {
                    Ok(())
                }
            },
            SpaceCard::CosmicRadiation => self.discard_or_die(GameCard::O1),
            SpaceCard::AsteroidField => {
                let once = self.discard_or_die(GameCard::O1);
                if self.players[traveller].alive {
                    self.discard_or_die(GameCard::O1)
                } else {
                    once
                }
            },
            SpaceCard::GravitationalAnomaly => {
                let traveller = self.whose_turn_reference;
                self.laser_blast(&traveller);
                Ok(())
            },
            SpaceCard::WormHole => {
                self.inform(traveller);
                let other = self.controllers[traveller].choose_player_to_swap_with();
                let done = self.worm_hole(&other);
                assert((self@, done) == old(self)@.worm_hole(other));
                done
            },
        }
    }

    /// The player whose turn it is moves along the track: they draw space
    /// cards until one is no hyperspace jump, and land on that one. Where
    /// the deck runs out first, they stay on the last jump, or where they
    /// were.
    pub fn add_space(&mut self) -> (done: Result<(), SelfishError>)
        requires
            old(self).wf(),
        ensures
            final(self).wf(),
            final(self)@.players.len() == old(self)@.players.len(),
            old(self)@.travelled(final(self)@, done),
            !old(self)@.travel_asks() ==> final(self).agents_unasked(old(self)),
    {
        let traveller = self.whose_turn_reference.0;
        let ghost mut drawn: int = 0;
        proof {
            let before = old(self)@;
            assert(before.track.skip(0) =~= before.track);
            assert(before.players[traveller as int].space + before.track.take(0)
                =~= before.players[traveller as int].space);
            assert(self@.players =~= before.advanced(0).players);
        }
        while !self.space_deck.is_empty()
            invariant
                self.wf(),
                traveller == self.whose_turn_reference.0,
                traveller == old(self).whose_turn_reference.0,
                old(self).wf(),
                0 <= drawn <= old(self)@.track.len(),
                forall|i: int| 0 <= i < drawn ==> old(self)@.track[i] == SpaceCard::Hyperspace,
                self@ == old(self)@.advanced(drawn),
                self.agents_unasked(old(self)),
            decreases self.space_deck@.len(),
        {
            let ghost before = old(self)@;
            let ghost here = self@;
            assert(here.players[traveller as int] == self.players@[traveller as int]@);
            let card = self.space_deck.draw();
            self.players[traveller].space.push(card);
            proof {
                assert(self@.players =~= here.players.update(
                    traveller as int,
                    PlayerView {
                        space: here.players[traveller as int].space.push(card),
                        ..here.players[traveller as int]
                    },
                ));
                assert(before.track.skip(drawn)[0] == before.track[drawn]);
                assert(before.track.skip(drawn).drop_first() =~= before.track.skip(drawn + 1));
                assert((before.players[traveller as int].space + before.track.take(drawn)).push(
                    card,
                ) =~= before.players[traveller as int].space + before.track.take(drawn + 1));
                assert(self@.players =~= before.advanced(drawn + 1).players);
                assert(self@ == before.advanced(drawn + 1));
            }
            if card != SpaceCard::Hyperspace {
                proof {
                    lemma_hyperspace_run(before.track, drawn);
                }
                return self.land_on(card);
            }
            proof {
                drawn = drawn + 1;
            }
        }
        proof {
            lemma_hyperspace_run(old(self)@.track, drawn);
        }
        Ok(())
    }
}

} // verus!
