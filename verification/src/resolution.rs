//! How an action is resolved: the rules admit or refuse it, the target may
//! defend, the effect is applied, and the actor discards the card.

use crate::actions::Action;
use crate::errors::SelfishError;
use crate::game::{Game, Phase, PlayerReference};
use crate::game_cards::GameCard;
use crate::player::lemma_distinct_kinds;
use vstd::prelude::*;

verus! {

impl Game {
    /// Whether the effect of `action` would change the hand or the track of
    /// its target.
    fn disturbs(&self, action: &Action) -> (disturbed: bool)
        requires
            action.spec_attacking() is Some ==> self@.seated(action.target_seat()),
        ensures
            disturbed == self@.disturbs_target(*action),
    {
        match action {
            Action::OxygenSiphon { target } => self.players[target.0].has_card(&GameCard::O1),
            Action::HackSuit { .. } => true,
            Action::TractorBeam { .. } => true,
            Action::LaserBlast { target } => self.players[target.0].space.len() > 0,
            Action::RocketBooster => false,
            Action::HoleInSuit { .. } => false,
            Action::Tether { .. } => false,
        }
    }

    /// Whether the rules admit `action` now, and the error where they do
    /// not. Nothing is changed.
    pub fn validate(&self, action: &Action) -> (verdict: Result<(), SelfishError>)
        requires
            self.wf(),
        ensures
            verdict == match self@.refusal(*action) {
                Some(error) => Err::<(), SelfishError>(error),
                None => Ok::<(), SelfishError>(()),
            },
    {
        let actor = self.whose_turn_reference.0;
        if let Some(target) = action.attacking() {
            if target.0 == actor {
                return Err(SelfishError::CantAttackYourself);
            }
            if target.0 >= self.players.len() {
                return Err(SelfishError::PlayerDoesNotExist(target));
            }
            if let Some(steal) = action.rules().steal {
                if steal.count > self.players[target.0].hand.len() {
                    return Err(SelfishError::PlayerDoesNotHaveEnoughCards(target, steal.count));
                }
            }
            if !self.players[target.0].alive && self.disturbs(action) {
                return Err(SelfishError::PlayerDoesNotExist(target));
            }
        }
        let card = action.card();
        if !self.players[actor].has_card(&card) {
            return Err(SelfishError::PlayerDoesNotHaveThisCard(card));
        }
        Ok(())
    }

    /// The target spends a shield against an attack.
    fn defend_with_shield(&mut self, target: &PlayerReference)
        requires
            old(self).wf(),
            old(self)@.seated(target.0 as int),
        ensures
            final(self).wf(),
            final(self).agents_unasked(old(self)),
            final(self)@.players.len() == old(self)@.players.len(),
            final(self)@ == old(self)@.shielded(target.0 as int),
    {
        self.spend_from(target.0, GameCard::Shield);
    }

    /// The oxygen siphon strikes `target`. A target without `O1` dies. A
    /// target with one `O1` loses it to the actor and dies. Any other target
    /// loses two `O1`, of which the actor gets one.
    fn siphon_oxygen(&mut self, target: &PlayerReference)
        requires
            old(self).wf(),
            old(self)@.seated(target.0 as int),
        ensures
            final(self).wf(),
            final(self).agents_unasked(old(self)),
            final(self)@.players.len() == old(self)@.players.len(),
            final(self)@ == old(self)@.siphoned(target.0 as int),
    {
        let actor = self.whose_turn_reference.0;
        let oxygen = self.players[target.0].count_cards(&GameCard::O1);
        if oxygen == 0 {
            let _ = self.player_died(target);
        } else if oxygen == 1 {
            self.take_from(target.0, GameCard::O1);
            self.give_to(actor, GameCard::O1);
            let _ = self.player_died(target);
        } else {
            self.take_from(target.0, GameCard::O1);
            self.take_from(target.0, GameCard::O1);
            self.give_to(actor, GameCard::O1);
        }
    }

    /// The actor takes from `target` a card of kind `choice`, as their agent
    /// chose, and discards the hack. Where `target` is no player of the
    /// roster or holds no such card, nothing is changed.
    pub fn hack_suit(&mut self, target: &PlayerReference, choice: GameCard) -> (hacked: Result<
        (),
        SelfishError,
    >)
        requires
            old(self).wf(),
        ensures
            final(self).wf(),
            final(self).agents_unasked(old(self)),
            final(self)@.players.len() == old(self)@.players.len(),
            (final(self)@, hacked) == old(self)@.hack_suit(*target, choice),
    {
        let actor = self.whose_turn_reference.0;
        if target.0 >= self.players.len() {
            return Err(SelfishError::PlayerDoesNotExist(*target));
        }
        if !self.take_from(target.0, choice) {
            assert(self@.players =~= old(self)@.players);
            return Err(SelfishError::PlayerDoesNotHaveThisCard(choice));
        }
        self.give_to(actor, choice);
        self.finish_action(actor, GameCard::HackSuit)
    }

    /// The latest card leaves the track of `target`, if there is one.
    pub(crate) fn laser_blast(&mut self, target: &PlayerReference)
        requires
            old(self).wf(),
            old(self)@.seated(target.0 as int),
        ensures
            final(self).wf(),
            final(self).agents_unasked(old(self)),
            final(self)@.players.len() == old(self)@.players.len(),
            final(self)@ == old(self)@.blasted(target.0 as int),
    {
        self.players[target.0].space.pop();
        proof {
            if old(self)@.players[target.0 as int].space.len() > 0 {
                assert(self@.players =~= old(self)@.blasted(target.0 as int).players);
            } else {
                assert(self@.players =~= old(self)@.players);
            }
        }
    }

    /// The end of an action: the actor discards `card`. A dead actor keeps
    /// their hand.
    pub(crate) fn finish_action(&mut self, actor: usize, card: GameCard) -> (done: Result<
        (),
        SelfishError,
    >)
        requires
            old(self).wf(),
            actor < old(self).players@.len(),
        ensures
            final(self).wf(),
            final(self).agents_unasked(old(self)),
            final(self)@.players.len() == old(self)@.players.len(),
            (final(self)@, done) == old(self)@.played(actor as int, card),
    {
        if !self.players[actor].alive {
            Ok(())
        } else if self.spend_from(actor, card) {
            Ok(())
        } else {
            Err(SelfishError::PlayerDoesNotHaveThisCard(card))
        }
    }


    /// Carries out an action that the rules admit, once the target has
    /// answered. A target who defends spends a shield and the action does
    /// nothing; either way the actor discards the action's card.
    pub fn resolve(&mut self, action: Action, defended: bool) -> (played: Result<
        (),
        SelfishError,
    >)
        requires
            old(self).wf(),
            old(self)@.refusal(action) is None,
            defended ==> action.spec_attacking() is Some && old(self)@.may_defend(
                action.target_seat(),
            ),
        ensures
            final(self).wf(),
            final(self)@.players.len() == old(self)@.players.len(),
            old(self)@.answered(action, defended, final(self)@, played),
            defended || !old(self)@.strike_asks(action) ==> final(self).agents_unasked(
                old(self),
            ),
    {
        let actor = self.whose_turn_reference.0;
        let card = action.card();
        if defended {
            if let Some(target) = action.attacking() {
                self.defend_with_shield(&target);
            }
            return self.finish_action(actor, card);
        }
        match action {
            Action::OxygenSiphon { target } => {
                self.siphon_oxygen(&target);
            },
            Action::HackSuit { target } => {
                let options = self.players[target.0].unique_cards();
                proof {
                    lemma_distinct_kinds(self.players@[target.0 as int].hand@);
                    let hand = self.players@[target.0 as int].hand@;
                    assert(hand.contains(hand[0]));
                }
                self.inform(actor);
                let choice = self.controllers[actor].choose_card_to_take(options);
                let hacked = self.hack_suit(&target, choice);
                assert((self@, hacked) == old(self)@.hack_suit(target, choice));
                return hacked;
            },
            Action::TractorBeam { target } => {
                match self.remove_random_card(&target) {
                    Ok(stolen) => {
                        let ghost index = choose|index: int| #[trigger]
                            old(self)@.robbed(target.0 as int, index, self@, stolen);
                        self.give_to(actor, stolen);
                        let ghost taken = old(self)@.beamed(target.0 as int, index).with_rng(
                            self@.rng,
                        );
                        assert(self@ == taken);
                        let done = self.finish_action(actor, card);
                        assert((self@, done) == taken.played(actor as int, card) && self@.rng
                            == taken.rng);
                        return done;
                    },
                    Err(error) => {
                        return Err(error);
                    },
                }
            },
            Action::RocketBooster => {
                let travel = self.add_space();
                let ghost landing = self@;
                if travel.is_err() {
                    assert(old(self)@.travelled(landing, travel) && (self@, travel) == (
                        landing,
                        travel,
                    ));
                    return travel;
                }
                let done = self.finish_action(actor, card);
                assert(old(self)@.travelled(landing, travel) && (self@, done) == landing.played(
                    actor as int,
                    card,
                ));
                return done;
            },
            Action::LaserBlast { target } => {
                self.laser_blast(&target);
            },
            Action::HoleInSuit { .. } => {},
            Action::Tether { .. } => {},
        }
        self.finish_action(actor, card)
    }

    /// Plays `action` for the player whose turn it is. An action that the
    /// rules refuse changes nothing. A living target who holds a shield and
    /// is out of a solar flare is asked whether to defend; then the action
    /// is carried out.
    pub fn action(&mut self, action: Action) -> (played: Result<(), SelfishError>)
        requires
            old(self).wf(),
            old(self).phase == Phase::Actions,
        ensures
            final(self).wf(),
            final(self)@.players.len() == old(self)@.players.len(),
            old(self)@.resolved(action, final(self)@, played),
            old(self)@.refusal(action) is Some ==> *final(self) == *old(self),
            !old(self)@.action_asks(action) ==> final(self).agents_unasked(old(self)),
    {
        match self.validate(&action) {
            Err(error) => {
                return Err(error);
            },
            Ok(()) => {},
        }
        let mut defended = false;
        if let Some(target) = action.attacking() {
            let alive = self.players[target.0].alive;
            if let Ok(true) = self.can_player_defend(&target) {
                if alive {
                    self.inform(target.0);
                    defended = self.controllers[target.0].defend(&action);
                }
            }
        }
        self.resolve(action, defended)
    }
}

} // verus!
