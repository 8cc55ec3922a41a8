//! The game itself: roster, decks, turn order and the resolution of actions.

use crate::errors::SelfishError;
use crate::game_cards::{
    copies, count_of, lemma_count_push, lemma_starting_cards_count, lemma_without_first_count,
    repeated, without_first, GameCard, GameDeck,
};
use crate::rng::{entropy_rng, seeded_rng};
use crate::player::{Player, PlayerView};
use crate::player_controller::PlayerController;
use crate::space_cards::{starting_track, SpaceCard, SpaceDeck};
use crate::visible_state::{copy_of, VisibleState};
use crate::state::{in_hands, lemma_next_living, living, next_living, seek_living, GameView};
use rand_chacha::ChaCha8Rng;
use vstd::prelude::*;

verus! {

/// A seat at the table, by its position in the roster.
#[derive(Debug, PartialEq, Eq, Clone, Copy, Structural)]
pub struct PlayerReference(pub usize);

/// The step of a turn that the game is in.
#[derive(Debug, PartialEq, Eq, Clone, Copy, Structural)]
pub enum Phase {
    Pickup,
    Actions,
    BreatheOrTravel,
}

/// A game in progress. It owns the generator, both decks, the players and
/// the agent that decides for each of them.
pub struct Game {
    pub rng: ChaCha8Rng,
    pub game_over: bool,
    pub game_deck: GameDeck,
    pub space_deck: SpaceDeck,
    pub players: Vec<Player>,
    pub controllers: Vec<Box<dyn PlayerController>>,
    pub whose_turn_reference: PlayerReference,
    pub phase: Phase,
}

/// The hand that every player starts with: one `O2` and four `O1`.
pub open spec fn opening_hand() -> Seq<GameCard> {
    seq![GameCard::O2, GameCard::O1, GameCard::O1, GameCard::O1, GameCard::O1]
}

/// The opening hand counts one `O2`, four `O1` and nothing else.
pub proof fn lemma_opening_hand_count(card: GameCard)
    ensures
        count_of(opening_hand(), card) == if card == GameCard::O2 {
            1nat
        } else if card == GameCard::O1 {
            4nat
        } else {
            0nat
        },
{
    let h0 = Seq::<GameCard>::empty();
    let h1 = h0.push(GameCard::O2);
    let h2 = h1.push(GameCard::O1);
    let h3 = h2.push(GameCard::O1);
    let h4 = h3.push(GameCard::O1);
    let h5 = h4.push(GameCard::O1);
    broadcast use vstd::seq_lib::group_to_multiset_ensures;

    assert(!h0.contains(card));
    lemma_count_push(h0, GameCard::O2, card);
    lemma_count_push(h1, GameCard::O1, card);
    lemma_count_push(h2, GameCard::O1, card);
    lemma_count_push(h3, GameCard::O1, card);
    lemma_count_push(h4, GameCard::O1, card);
    assert(h5 =~= opening_hand());
}

/// Takes a `card` out of the available pile of a deck that holds one.
fn deal(deck: &mut GameDeck, card: GameCard) -> (taken: GameCard)
    requires
        count_of(old(deck).available@, card) > 0,
    ensures
        taken == card,
        final(deck).discard@ == old(deck).discard@,
        forall|kind: GameCard|
            count_of(final(deck).available@, kind) == count_of(old(deck).available@, kind) - (
            if kind == card {
                1int
            } else {
                0int
            }),
{
    proof {
        old(deck).available@.to_multiset_ensures();
        assert forall|kind: GameCard|
            count_of(without_first(deck.available@, card), kind) == count_of(
                deck.available@,
                kind,
            ) - (if kind == card {
                1int
            } else {
                0int
            }) by {
            lemma_without_first_count(deck.available@, card, kind);
        }
    }
    deck.take(card)
}

/// The players as the rules see them.
pub open spec fn player_views(players: Seq<Player>) -> Seq<PlayerView> {
    players.map_values(|p: Player| p@)
}

impl View for Game {
    type V = GameView;

    open spec fn view(&self) -> GameView {
        GameView {
            players: player_views(self.players@),
            available: self.game_deck.available@,
            discard: self.game_deck.discard@,
            track: self.space_deck@,
            whose_turn: self.whose_turn_reference.0 as int,
            phase: self.phase,
            game_over: self.game_over,
            rng: self.rng,
        }
    }
}

impl Game {
    /// Every player has an agent, and the turn is that of a seat at the table.
    pub open spec fn wf(&self) -> bool {
        &&& self.controllers@.len() == self.players@.len()
        &&& self.whose_turn_reference.0 < self.players@.len()
    }

    /// Whether no agent has been asked or shown anything since `before`: the
    /// agents are as they were.
    pub open spec fn agents_unasked(&self, before: &Game) -> bool {
        self.controllers == before.controllers
    }

    /// Whether this game differs from `before` at most in its players.
    pub open spec fn only_players_changed(&self, before: &Game) -> bool {
        *self == Game { players: self.players, ..*before }
    }

    /// A new game for as many players as there are agents, at most nine:
    /// both decks are shuffled, by a generator that `seed` fixes or, without
    /// a seed, the operating system seeds, and every player is dealt one
    /// `O2` and four `O1`. The first player starts.
    pub fn new(seed: Option<u64>, controllers: Vec<Box<dyn PlayerController>>) -> (game: Game)
        requires
            controllers@.len() <= 9,
        ensures
            game.controllers == controllers,
            game@.players.len() == controllers@.len(),
            forall|seat: int|
                0 <= seat < game@.players.len() ==> #[trigger] game@.players[seat] == (PlayerView {
                    alive: true,
                    hand: opening_hand(),
                    space: Seq::empty(),
                }),
            game@.whose_turn == 0,
            game@.phase == Phase::Pickup,
            !game@.game_over,
            game@.discard == Seq::<GameCard>::empty(),
            game@.track.to_multiset() == starting_track().to_multiset(),
            game@.intact(),
            living(game@.players) == controllers@.len(),
            controllers@.len() > 0 ==> game.wf(),
    {
        let mut rng = match seed {
            None => entropy_rng(),
            Some(seed) => seeded_rng(seed),
        };
        let space_deck = SpaceDeck::shuffled(&mut rng);
        let mut game_deck = GameDeck::shuffled(&mut rng);
        let mut players: Vec<Player> = Vec::new();
        proof {
            assert forall|card: GameCard|
                in_hands(player_views(players@), card) + count_of(game_deck.available@, card)
                    == copies(card) by {
                lemma_starting_cards_count(card);
            }
            lemma_starting_cards_count(GameCard::O1);
            lemma_starting_cards_count(GameCard::O2);
        }
        let mut dealt: usize = 0;
        while dealt < controllers.len()
            invariant
                dealt <= controllers@.len() <= 9,
                players@.len() == dealt,
                living(player_views(players@)) == dealt,
                game_deck.discard@ == Seq::<GameCard>::empty(),
                count_of(game_deck.available@, GameCard::O1) == 38 - 4 * dealt,
                count_of(game_deck.available@, GameCard::O2) == 20 - dealt,
                forall|card: GameCard|
                    in_hands(player_views(players@), card) + count_of(game_deck.available@, card)
                        == copies(card),
                forall|seat: int|
                    0 <= seat < dealt ==> #[trigger] player_views(players@)[seat] == (PlayerView {
                        alive: true,
                        hand: opening_hand(),
                        space: Seq::empty(),
                    }),
            decreases controllers@.len() - dealt,
        {
            let ghost before = game_deck.available@;
            let ghost seated = player_views(players@);
            let mut player = Player::new();
            let o2 = deal(&mut game_deck, GameCard::O2);
            player.give(o2);
            let mut given: usize = 0;
            while given < 4
                invariant
                    given <= 4,
                    player.alive,
                    player.space@ == Seq::<SpaceCard>::empty(),
                    player.hand@ == seq![GameCard::O2] + repeated(GameCard::O1, given as nat),
                    game_deck.discard@ == Seq::<GameCard>::empty(),
                    forall|card: GameCard|
                        count_of(game_deck.available@, card) == count_of(before, card) - (if card
                            == GameCard::O2 {
                            1int
                        } else if card == GameCard::O1 {
                            given as int
                        } else {
                            0int
                        }),
                    count_of(before, GameCard::O1) >= 4,
                decreases 4 - given,
            {
                let o1 = deal(&mut game_deck, GameCard::O1);
                player.give(o1);
                given += 1;
                assert(player.hand@ =~= seq![GameCard::O2] + repeated(GameCard::O1, given as nat));
            }
            assert(player.hand@ =~= opening_hand());
            players.push(player);
            proof {
                let now = player_views(players@);
                assert(now.drop_last() =~= seated);
                assert(now.last() == player@);
                assert forall|seat: int| 0 <= seat < dealt + 1 implies #[trigger] now[seat] == (
                PlayerView { alive: true, hand: opening_hand(), space: Seq::empty() }) by {
                    if seat < dealt {
                        assert(now[seat] == seated[seat]);
                    }
                }
                assert forall|card: GameCard|
                    in_hands(now, card) + count_of(game_deck.available@, card) == copies(card) by {
                    lemma_opening_hand_count(card);
                }
            }
            dealt += 1;
        }
        proof {
            game_deck.discard@.to_multiset_ensures();
            assert forall|card: GameCard| count_of(game_deck.discard@, card) == 0 by {
                assert(!game_deck.discard@.contains(card));
            }
        }
        Game {
            rng,
            game_deck,
            space_deck,
            players,
            controllers,
            whose_turn_reference: PlayerReference(0),
            phase: Phase::Pickup,
            game_over: false,
        }
    }

    /// How many players sit at the table, dead or alive.
    pub fn player_count(&self) -> (count: usize)
        ensures
            count == self@.players.len(),
    {
        self.players.len()
    }

    /// The player at `player_reference`, or the error for a reference
    /// outside the roster.
    pub fn player(&self, player_reference: &PlayerReference) -> (found: Result<
        &Player,
        SelfishError,
    >)
        ensures
            player_reference.0 < self.players@.len() ==> found is Ok && *found->Ok_0
                == self.players@[player_reference.0 as int],
            player_reference.0 >= self.players@.len() ==> found == Err::<&Player, SelfishError>(
                SelfishError::PlayerDoesNotExist(*player_reference),
            ),
    {
        if player_reference.0 < self.players.len() {
            Ok(&self.players[player_reference.0])
        } else {
            Err(SelfishError::PlayerDoesNotExist(*player_reference))
        }
    }

    /// The player at `player_reference`, to be changed in place, or the
    /// error for a reference outside the roster.
    pub fn player_mut(&mut self, player_reference: &PlayerReference) -> (found: Result<
        &mut Player,
        SelfishError,
    >)
        ensures
            player_reference.0 >= old(self).players@.len() ==> found == Err::<
                &mut Player,
                SelfishError,
            >(SelfishError::PlayerDoesNotExist(*player_reference)) && *final(self) == *old(self),
            player_reference.0 < old(self).players@.len() ==> {
                &&& found is Ok
                &&& *found->Ok_0 == old(self).players@[player_reference.0 as int]
                &&& final(self).players@ == old(self).players@.update(
                    player_reference.0 as int,
                    *final(found->Ok_0),
                )
                &&& final(self).only_players_changed(old(self))
            },
    {
        if player_reference.0 < self.players.len() {
            Ok(&mut self.players[player_reference.0])
        } else {
            Err(SelfishError::PlayerDoesNotExist(*player_reference))
        }
    }

    /// The player at `player_reference` together with the generator, both to
    /// be changed in place, or the error for a reference outside the roster.
    pub fn player_mut_rng(&mut self, player_reference: &PlayerReference) -> (found: Result<
        (&mut Player, &mut ChaCha8Rng),
        SelfishError,
    >)
        ensures
            match found {
                Ok((player, rng)) => {
                    &&& player_reference.0 < old(self).players@.len()
                    &&& *player == old(self).players@[player_reference.0 as int]
                    &&& *rng == old(self).rng
                    &&& final(self).players@ == old(self).players@.update(
                        player_reference.0 as int,
                        *final(player),
                    )
                    &&& *final(self) == (Game {
                        players: final(self).players,
                        rng: *final(rng),
                        ..*old(self)
                    })
                },
                Err(error) => {
                    &&& player_reference.0 >= old(self).players@.len()
                    &&& error == SelfishError::PlayerDoesNotExist(*player_reference)
                    &&& *final(self) == *old(self)
                },
            },
    {
        if player_reference.0 < self.players.len() {
            Ok((&mut self.players[player_reference.0], &mut self.rng))
        } else {
            Err(SelfishError::PlayerDoesNotExist(*player_reference))
        }
    }

    /// The player whose turn it is, to be changed in place.
    pub fn current_player(&mut self) -> (player: &mut Player)
        requires
            old(self).whose_turn_reference.0 < old(self).players@.len(),
        ensures
            *player == old(self).players@[old(self).whose_turn_reference.0 as int],
            final(self).players@ == old(self).players@.update(
                old(self).whose_turn_reference.0 as int,
                *final(player),
            ),
            final(self).only_players_changed(old(self)),
    {
        let seat = self.whose_turn_reference.0;
        &mut self.players[seat]
    }

    /// Whether this game differs from `before` at most in what its agents
    /// are, not in how many they are.
    pub open spec fn only_agents_changed(&self, before: &Game) -> bool {
        &&& *self == Game { controllers: self.controllers, ..*before }
        &&& self.controllers@.len() == before.controllers@.len()
    }

    /// The agent of the player at `player_reference`, to be asked or changed
    /// in place, or the error for a reference outside the roster.
    pub fn controller(&mut self, player_reference: &PlayerReference) -> (found: Result<
        &mut Box<dyn PlayerController>,
        SelfishError,
    >)
        ensures
            player_reference.0 >= old(self).controllers@.len() ==> found == Err::<
                &mut Box<dyn PlayerController>,
                SelfishError,
            >(SelfishError::PlayerDoesNotExist(*player_reference)) && *final(self) == *old(self),
            player_reference.0 < old(self).controllers@.len() ==> {
                &&& found is Ok
                &&& *found->Ok_0 == old(self).controllers@[player_reference.0 as int]
                &&& final(self).only_agents_changed(old(self))
            },
    {
        if player_reference.0 < self.controllers.len() {
            Ok(&mut self.controllers[player_reference.0])
        } else {
            Err(SelfishError::PlayerDoesNotExist(*player_reference))
        }
    }

    /// The agent of the player whose turn it is.
    pub fn current_controller(&mut self) -> (found: Result<
        &mut Box<dyn PlayerController>,
        SelfishError,
    >)
        ensures
            old(self).whose_turn_reference.0 >= old(self).controllers@.len() ==> found == Err::<
                &mut Box<dyn PlayerController>,
                SelfishError,
            >(SelfishError::PlayerDoesNotExist(old(self).whose_turn_reference)) && *final(self)
                == *old(self),
            old(self).whose_turn_reference.0 < old(self).controllers@.len() ==> {
                &&& found is Ok
                &&& *found->Ok_0 == old(self).controllers@[old(self).whose_turn_reference.0 as int]
                &&& final(self).only_agents_changed(old(self))
            },
    {
        let player_reference = self.whose_turn_reference;
        self.controller(&player_reference)
    }

    /// The player at `seat` gets `card`.
    pub(crate) fn give_to(&mut self, seat: usize, card: GameCard)
        requires
            old(self).wf(),
            seat < old(self).players@.len(),
        ensures
            final(self).wf(),
            final(self).agents_unasked(old(self)),
            final(self)@.players.len() == old(self)@.players.len(),
            final(self)@ == old(self)@.gain(seat as int, card),
    {
        self.players[seat].give(card);
        assert(self@.players =~= old(self)@.gain(seat as int, card).players);
    }

    /// The player at `seat` parts with their first `card`, if they hold one.
    pub(crate) fn take_from(&mut self, seat: usize, card: GameCard) -> (held: bool)
        requires
            old(self).wf(),
            seat < old(self).players@.len(),
        ensures
            final(self).wf(),
            final(self).agents_unasked(old(self)),
            final(self)@.players.len() == old(self)@.players.len(),
            held == old(self)@.players[seat as int].hand.contains(card),
            final(self)@ == old(self)@.lose(seat as int, card),
    {
        let removed = self.players[seat].remove_card(&card);
        assert(self@.players =~= old(self)@.lose(seat as int, card).players);
        removed.is_ok()
    }

    /// The player at `seat` discards their first `card`, if they hold one.
    pub(crate) fn spend_from(&mut self, seat: usize, card: GameCard) -> (held: bool)
        requires
            old(self).wf(),
            seat < old(self).players@.len(),
        ensures
            final(self).wf(),
            final(self).agents_unasked(old(self)),
            final(self)@.players.len() == old(self)@.players.len(),
            held == old(self)@.players[seat as int].hand.contains(card),
            final(self)@ == old(self)@.spend(seat as int, card),
    {
        if self.take_from(seat, card) {
            self.game_deck.add_to_discard(card);
            true
        } else {
            assert(self@.players =~= old(self)@.players);
            false
        }
    }

    /// The seat of the player whose turn comes next.
    fn next_living_seat(&self) -> (seat: usize)
        requires
            self.wf(),
        ensures
            seat == next_living(self@.players, self@.whose_turn),
    {
        let seats = self.players.len();
        let turn = self.whose_turn_reference.0;
        let mut candidate = if turn + 1 >= seats {
            0
        } else {
            turn + 1
        };
        let mut left = seats - 1;
        while left > 0
            invariant
                seats == self.players@.len(),
                turn == self.whose_turn_reference.0,
                candidate < seats,
                left < seats,
                next_living(self@.players, turn as int) == seek_living(
                    self@.players,
                    candidate as int,
                    left as nat,
                    turn as int,
                ),
            decreases left,
        {
            assert(self@.players[candidate as int] == self.players@[candidate as int]@);
            if self.players[candidate].alive {
                return candidate;
            }
            candidate = if candidate + 1 >= seats {
                0
            } else {
                candidate + 1
            };
            left -= 1;
        }
        turn
    }

    /// Passes the turn to the next living player round the table; it stays
    /// where nobody else lives.
    pub fn next_player(&mut self)
        requires
            old(self).wf(),
        ensures
            final(self).wf(),
            final(self).agents_unasked(old(self)),
            final(self)@.players.len() == old(self)@.players.len(),
            final(self)@ == (GameView {
                whose_turn: next_living(old(self)@.players, old(self)@.whose_turn),
                ..old(self)@
            }),
    {
        let seat = self.next_living_seat();
        proof {
            lemma_next_living(self@.players, self@.whose_turn);
        }
        self.whose_turn_reference = PlayerReference(seat);
    }

    /// How many players live.
    fn count_living(&self) -> (count: usize)
        ensures
            count == living(self@.players),
    {
        let mut count: usize = 0;
        let mut seat: usize = 0;
        assert(self@.players.take(0) =~= Seq::empty());
        while seat < self.players.len()
            invariant
                seat <= self.players@.len(),
                count <= seat,
                count == living(self@.players.take(seat as int)),
            decreases self.players@.len() - seat,
        {
            assert(self@.players.take(seat + 1).drop_last() =~= self@.players.take(seat as int));
            if self.players[seat].alive {
                count += 1;
            }
            seat += 1;
        }
        assert(self@.players.take(seat as int) =~= self@.players);
        count
    }

    /// Declares the game over where exactly one player lives.
    pub fn check_game_over(&mut self)
        ensures
            final(self)@ == old(self)@.judged(),
            final(self).agents_unasked(old(self)),
    {
        if self.count_living() == 1 {
            self.game_over = true;
        }
    }

    /// The player at `player_reference` dies: the game is over where one
    /// player is left, and where it was the turn of the dead, the turn ends.
    pub fn player_died(&mut self, player_reference: &PlayerReference) -> (died: Result<
        (),
        SelfishError,
    >)
        requires
            old(self).wf(),
        ensures
            final(self).wf(),
            final(self).agents_unasked(old(self)),
            final(self)@.players.len() == old(self)@.players.len(),
            player_reference.0 >= old(self)@.players.len() ==> died == Err::<(), SelfishError>(
                SelfishError::PlayerDoesNotExist(*player_reference),
            ) && final(self)@ == old(self)@,
            player_reference.0 < old(self)@.players.len() ==> died is Ok && final(self)@ == old(
                self,
            )@.eliminate(player_reference.0 as int),
    {
        let seat = player_reference.0;
        if seat >= self.players.len() {
            return Err(SelfishError::PlayerDoesNotExist(*player_reference));
        }
        self.players[seat].alive = false;
        assert(self@.players =~= old(self)@.players.update(
            seat as int,
            PlayerView { alive: false, ..old(self)@.players[seat as int] },
        ));
        self.check_game_over();
        if seat == self.whose_turn_reference.0 {
            self.next_player();
            self.phase = Phase::Pickup;
        }
        Ok(())
    }

    /// The players at `one` and `other` exchange their tracks.
    pub fn swap_space(&mut self, one: &PlayerReference, other: &PlayerReference) -> (swapped:
        Result<(), SelfishError>)
        requires
            old(self).wf(),
        ensures
            final(self).wf(),
            final(self).agents_unasked(old(self)),
            final(self)@.players.len() == old(self)@.players.len(),
            swapped == old(self)@.swap_refusal(*one, *other),
            swapped is Err ==> final(self)@ == old(self)@,
            swapped is Ok ==> final(self)@ == old(self)@.swap_space(one.0 as int, other.0 as int),
    {
        if one.0 >= self.players.len() {
            return Err(SelfishError::PlayerDoesNotExist(*one));
        }
        if other.0 >= self.players.len() {
            return Err(SelfishError::PlayerDoesNotExist(*other));
        }
        let one_space = copy_of(&self.players[one.0].space);
        let other_space = copy_of(&self.players[other.0].space);
        self.players[one.0].space = other_space;
        self.players[other.0].space = one_space;
        assert(self@.players =~= old(self)@.swap_space(one.0 as int, other.0 as int).players);
        Ok(())
    }

    /// The player whose turn it is discards a `card` or, holding none, dies.
    pub fn discard_or_die(&mut self, card: GameCard) -> (done: Result<(), SelfishError>)
        requires
            old(self).wf(),
        ensures
            final(self).wf(),
            final(self).agents_unasked(old(self)),
            final(self)@.players.len() == old(self)@.players.len(),
            done is Ok,
            final(self)@ == old(self)@.discard_or_die(card),
    {
        let whose_turn_reference = self.whose_turn_reference;
        if self.spend_from(whose_turn_reference.0, card) {
            Ok(())
        } else {
            self.player_died(&whose_turn_reference)
        }
    }

    /// The player whose turn it is discards their first `card`, or fails
    /// where they hold none.
    pub fn discard(&mut self, card: &GameCard) -> (done: Result<(), SelfishError>)
        requires
            old(self).wf(),
        ensures
            final(self).wf(),
            final(self).agents_unasked(old(self)),
            final(self)@.players.len() == old(self)@.players.len(),
            final(self)@ == old(self)@.spend(old(self)@.whose_turn, *card),
            old(self)@.players[old(self)@.whose_turn].hand.contains(*card) ==> done is Ok,
            !old(self)@.players[old(self)@.whose_turn].hand.contains(*card) ==> done == Err::<
                (),
                SelfishError,
            >(SelfishError::PlayerDoesNotHaveThisCard(*card)),
    {
        let seat = self.whose_turn_reference.0;
        if self.spend_from(seat, *card) {
            Ok(())
        } else {
            Err(SelfishError::PlayerDoesNotHaveThisCard(*card))
        }
    }

    /// Whether the player at `player_reference` can answer an attack with a
    /// shield, or the error for a reference outside the roster.
    pub fn can_player_defend(&self, player_reference: &PlayerReference) -> (able: Result<
        bool,
        SelfishError,
    >)
        ensures
            player_reference.0 >= self@.players.len() ==> able == Err::<bool, SelfishError>(
                SelfishError::PlayerDoesNotExist(*player_reference),
            ),
            player_reference.0 < self@.players.len() ==> able == Ok::<bool, SelfishError>(
                self@.can_defend(player_reference.0 as int),
            ),
    {
        if player_reference.0 >= self.players.len() {
            return Err(SelfishError::PlayerDoesNotExist(*player_reference));
        }
        let player = &self.players[player_reference.0];
        let has_shield_card = player.has_card(&GameCard::Shield);
        let in_solar_flare = player.in_solar_flare();
        Ok(has_shield_card && !in_solar_flare)
    }

    /// Shows the player at `seat` what they can see of the game.
    pub(crate) fn inform(&mut self, seat: usize)
        requires
            old(self).wf(),
            seat < old(self).players@.len(),
        ensures
            final(self).wf(),
            final(self)@.players.len() == old(self)@.players.len(),
            final(self)@ == old(self)@,
    {
        let viewer = PlayerReference(seat);
        match VisibleState::project(self, &viewer) {
            Ok(seen) => {
                self.controllers[seat].update_state(seen);
            },
            Err(_) => {},
        }
    }

    /// The player whose turn it is draws a card, unless both piles are
    /// empty.
    pub fn draw_card(&mut self) -> (card: Option<GameCard>)
        requires
            old(self).wf(),
        ensures
            final(self).wf(),
            final(self).agents_unasked(old(self)),
            final(self)@.players.len() == old(self)@.players.len(),
            old(self)@.drew(final(self)@, card),
    {
        if self.game_deck.available.is_empty() && self.game_deck.discard.is_empty() {
            return None;
        }
        let card = self.game_deck.draw(&mut self.rng);
        let seat = self.whose_turn_reference.0;
        self.give_to(seat, card);
        Some(card)
    }

    /// The pickup that opens a turn: the player whose turn it is draws a
    /// card, and the actions phase begins.
    pub fn draw_card_phase(&mut self) -> (card: Option<GameCard>)
        requires
            old(self).wf(),
            old(self).phase == Phase::Pickup,
        ensures
            final(self).wf(),
            final(self).agents_unasked(old(self)),
            final(self)@.players.len() == old(self)@.players.len(),
            old(self)@.picked_up(final(self)@, card),
    {
        let card = self.draw_card();
        self.phase = Phase::Actions;
        card
    }

    /// Takes out of the hand of the player at `player_reference` a card that
    /// the generator picks, or fails where there is no such player or their
    /// hand is empty.
    pub fn remove_random_card(&mut self, player_reference: &PlayerReference) -> (removed: Result<
        GameCard,
        SelfishError,
    >)
        requires
            old(self).wf(),
        ensures
            final(self).wf(),
            final(self).agents_unasked(old(self)),
            final(self)@.players.len() == old(self)@.players.len(),
            match old(self)@.nothing_to_take(*player_reference) {
                Some(error) => removed == Err::<GameCard, SelfishError>(error) && final(self)@
                    == old(self)@,
                None => removed is Ok && exists|index: int| #[trigger]
                    old(self)@.robbed(
                        player_reference.0 as int,
                        index,
                        final(self)@,
                        removed->Ok_0,
                    ),
            },
    {
        let seat = player_reference.0;
        if seat >= self.players.len() {
            return Err(SelfishError::PlayerDoesNotExist(*player_reference));
        }
        let removed = self.players[seat].remove_random_card(&mut self.rng);
        proof {
            let hand = old(self)@.players[seat as int].hand;
            if hand.len() > 0 {
                let index = choose|index: int|
                    0 <= index < hand.len() && removed == Ok::<GameCard, SelfishError>(
                        #[trigger] hand[index],
                    ) && self.players@[seat as int].hand@ == hand.remove(index);
                assert(self@.players =~= old(self)@.with_hand(
                    seat as int,
                    hand.remove(index),
                ).players);
                assert(old(self)@.robbed(seat as int, index, self@, removed->Ok_0));
            } else {
                assert(self@.players =~= old(self)@.players);
            }
        }
        removed
    }
}

} // verus!
