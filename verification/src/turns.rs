//! The course of play: a turn is a pickup, actions, and a breath or a
//! journey; turns follow each other until one player is left.

use crate::actions::BreatheOrTravel;
use crate::errors::SelfishError;
use crate::game::{Game, Phase};
use crate::game_cards::GameCard;
use crate::laws::{
    lemma_drew_follows, lemma_nobody_lives, lemma_played_on_follows, lemma_resolved_follows,
    lemma_turn_taken_follows,
};
use crate::state::{hand_cards, lemma_next_living, living, GameView, Play};
use vstd::prelude::*;

verus! {

impl Game {
    /// The player whose turn it is ends their turn by `choice`. To breathe
    /// is to discard an `O1`; to travel is to discard an `O2` and to move
    /// along the track. A player who does not hold the card gets the error
    /// for that and nothing is changed.
    pub fn spend_oxygen(&mut self, choice: BreatheOrTravel) -> (done: Result<(), SelfishError>)
        requires
            old(self).wf(),
        ensures
            final(self).wf(),
            final(self)@.players.len() == old(self)@.players.len(),
            old(self)@.oxygen_spent(choice, final(self)@, done),
            !old(self)@.oxygen_asks(choice) ==> final(self).agents_unasked(old(self)),
    {
        let player = self.whose_turn_reference.0;
        match choice {
            BreatheOrTravel::Breathe => {
                if !self.spend_from(player, GameCard::O1) {
                    return Err(SelfishError::PlayerDoesNotHaveThisCard(GameCard::O1));
                }
                self.next_player();
                self.phase = Phase::Pickup;
                Ok(())
            },
            BreatheOrTravel::Travel => {
                if !self.spend_from(player, GameCard::O2) {
                    return Err(SelfishError::PlayerDoesNotHaveThisCard(GameCard::O2));
                }
                let ghost spent = self@;
                let done = self.add_space();
                let ghost landing = self@;
                if self.players[player].alive {
                    self.next_player();
                    self.phase = Phase::Pickup;
                }
                assert(spent.travelled(landing, done) && self@ == landing.turn_over(player as int));
                done
            },
        }
    }

    /// Closes the turn. A player without oxygen dies. A player with one
    /// kind of oxygen spends a card of that kind. A player with both kinds
    /// is asked which to spend. Then the turn passes to the next living
    /// player.
    pub fn breathe_or_travel(&mut self) -> (done: Result<(), SelfishError>)
        requires
            old(self).wf(),
            old(self).phase == Phase::Actions,
        ensures
            final(self).wf(),
            final(self)@.players.len() == old(self)@.players.len(),
            old(self)@.turn_closed(final(self)@, done),
            !old(self)@.closing_asks() ==> final(self).agents_unasked(old(self)),
    {
        self.phase = Phase::BreatheOrTravel;
        let whose_turn_reference = self.whose_turn_reference;
        let player = whose_turn_reference.0;
        let has_o1 = self.players[player].has_card(&GameCard::O1);
        let has_o2 = self.players[player].has_card(&GameCard::O2);
        let choice = if has_o1 && has_o2 {
            self.inform(player);
            Some(self.controllers[player].breathe_or_travel())
        } else if has_o1 {
            Some(BreatheOrTravel::Breathe)
        } else if has_o2 {
            Some(BreatheOrTravel::Travel)
        } else {
            None
        };
        match choice {
            Some(choice) => self.spend_oxygen(choice),
            None => self.player_died(&whose_turn_reference),
        }
    }

    /// One whole turn of the player whose turn it is: they pick up a card,
    /// play actions until their agent passes or an action fails, and close
    /// the turn by breathing or travelling. A player in a solar flare plays
    /// no action. An action that kills the player ends the turn at once, with
    /// the result of that action; otherwise the result is that of closing
    /// the turn.
    pub fn take_turn(&mut self) -> (done: Result<(), SelfishError>)
        requires
            old(self).wf(),
            old(self).phase == Phase::Pickup,
            old(self)@.lives(old(self)@.whose_turn),
        ensures
            final(self).wf(),
            final(self)@.players.len() == old(self)@.players.len(),
            old(self)@.turn_taken(final(self)@, done),
    {
        let actor = self.whose_turn_reference.0;
        let card = self.draw_card_phase();
        let ghost start = self@;
        let ghost mut plays: Seq<Play> = Seq::empty();
        proof {
            lemma_drew_follows(old(self)@, GameView { phase: Phase::Pickup, ..start }, card);
        }
        let mut acting = true;
        let mut played: Result<(), SelfishError> = Ok(());
        while acting
            invariant
                self.wf(),
                old(self).wf(),
                old(self)@.picked_up(start, card),
                self@.players.len() == old(self)@.players.len(),
                actor == self.whose_turn_reference.0,
                actor == old(self).whose_turn_reference.0,
                start.whose_turn == actor,
                start.lives(actor as int),
                self.phase == Phase::Actions,
                self@.lives(actor as int),
                start.acted(plays),
                self@ == start.after_plays(plays),
                acting && plays.len() > 0 ==> plays.last().result is Ok,
            decreases acting as int, self@.track.len(), hand_cards(self@.players),
        {
            assert(self@.players[actor as int] == self.players@[actor as int]@);
            if self.players[actor].in_solar_flare() {
                acting = false;
            } else {
                self.inform(actor);
                match self.controllers[actor].play_action() {
                    None => {
                        acting = false;
                    },
                    Some(action) => {
                        let ghost before = self@;
                        played = self.action(action);
                        proof {
                            lemma_resolved_follows(before, action, self@, played);
                            let longer = plays.push(Play { action, after: self@, result: played });
                            assert(longer.drop_last() =~= plays);
                            plays = longer;
                        }
                        assert(self@.players[actor as int] == self.players@[actor as int]@);
                        if !self.players[actor].alive {
                            assert(old(self)@.picked_up(start, card) && start.acted(plays)
                                && self@ == start.after_plays(plays));
                            return played;
                        }
                        if played.is_err() {
                            acting = false;
                        }
                    },
                }
            }
        }
        self.breathe_or_travel()
    }

    /// Plays whole turns, one living player after the other, until the game
    /// is over or nobody lives, but no more than `limit` turns, and says how
    /// many were played.
    pub fn play_turns(&mut self, limit: u64) -> (played: u64)
        requires
            old(self).wf(),
            old(self).phase == Phase::Pickup,
        ensures
            final(self).wf(),
            final(self)@.players.len() == old(self)@.players.len(),
            played <= limit,
            played < limit ==> final(self).game_over || living(final(self)@.players) == 0,
            old(self)@.follows(final(self)@),
            exists|turns: Seq<GameView>|
                {
                    &&& turns.len() == played
                    &&& #[trigger] old(self)@.played_on(turns)
                    &&& final(self)@ == old(self)@.after_turns(turns)
                },
    {
        let mut played: u64 = 0;
        let ghost mut turns: Seq<GameView> = Seq::empty();
        while !self.game_over && played < limit
            invariant
                self.wf(),
                old(self).wf(),
                old(self).phase == Phase::Pickup,
                self.phase == Phase::Pickup,
                self@.players.len() == old(self)@.players.len(),
                played <= limit,
                turns.len() == played,
                old(self)@.played_on(turns),
                self@ == old(self)@.after_turns(turns),
            decreases limit - played,
        {
            let ghost before = self@;
            let seat = self.whose_turn_reference.0;
            assert(self@.players[seat as int] == self.players@[seat as int]@);
            if !self.players[seat].alive {
                self.next_player();
                let next = self.whose_turn_reference.0;
                assert(self@.players[next as int] == self.players@[next as int]@);
                if !self.players[next].alive {
                    proof {
                        lemma_next_living(before.players, before.whose_turn);
                        lemma_nobody_lives(before.players, before.whose_turn);
                        assert(self@ == before);
                        lemma_played_on_follows(old(self)@, turns);
                    }
                    return played;
                }
            }
            assert(self@ == before.ready());
            let done = self.take_turn();
            proof {
                lemma_turn_taken_follows(before.ready(), self@, done);
                let longer = turns.push(self@);
                assert(longer.drop_last() =~= turns);
                assert(before.ready().turn_taken(longer.last(), done));
                turns = longer;
            }
            played += 1;
        }
        proof {
            lemma_played_on_follows(old(self)@, turns);
        }
        played
    }

    /// Plays the game to its end: whole turns, one living player after the
    /// other, until the game is over or nobody lives. A game that has not
    /// ended after `u64::MAX` turns is left as it then stands.
    ///
    /// A game that two players or more began ends over, and with one living
    /// player at most: the game is over from the moment that one player is
    /// left, but that player plays their turn to its end and may die in it.
    pub fn simulate(&mut self) -> (done: Result<(), SelfishError>)
        requires
            old(self).wf(),
            old(self).phase == Phase::Pickup,
        ensures
            final(self).wf(),
            final(self)@.players.len() == old(self)@.players.len(),
            done is Ok,
            old(self)@.follows(final(self)@),
            old(self)@.decided() && final(self).game_over ==> living(final(self)@.players) <= 1,
            exists|turns: Seq<GameView>|
                {
                    &&& #[trigger] old(self)@.played_on(turns)
                    &&& final(self)@ == old(self)@.after_turns(turns)
                    &&& final(self).game_over || living(final(self)@.players) == 0 || turns.len()
                        == u64::MAX
                    &&& old(self)@.settled() ==> final(self).game_over || turns.len() == u64::MAX
                },
    {
        self.play_turns(u64::MAX);
        Ok(())
    }
}

} // verus!
