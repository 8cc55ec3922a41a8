//! The game as the rules see it: a value made of sequences, and the moves of
//! the rules as functions from one such value to the next.
//!
//! The contracts of the engine speak of these values. What a generator or an
//! agent decides enters a move as an argument.

use crate::actions::{Action, BreatheOrTravel};
use crate::errors::SelfishError;
use crate::game::{Phase, PlayerReference};
use crate::game_cards::{copies, count_of, without_first, GameCard};
use crate::player::{in_flare, PlayerView};
use crate::space_cards::SpaceCard;
use rand_chacha::ChaCha8Rng;
use vstd::prelude::*;

verus! {

/// The successor of `seat` around a table of `seats` players.
pub open spec fn seat_after(seat: int, seats: int) -> int {
    if seat + 1 >= seats {
        0
    } else {
        seat + 1
    }
}

/// The first living player met from `candidate` on, going round the table
/// for at most `left` seats; `fallback` where all of them are dead.
pub open spec fn seek_living(
    players: Seq<PlayerView>,
    candidate: int,
    left: nat,
    fallback: int,
) -> int
    decreases left,
{
    if left == 0 {
        fallback
    } else if 0 <= candidate < players.len() && players[candidate].alive {
        candidate
    } else {
        seek_living(
            players,
            seat_after(candidate, players.len() as int),
            (left - 1) as nat,
            fallback,
        )
    }
}

/// Whose turn comes after that of `turn`: the next living player round the
/// table, or `turn` again where nobody else lives.
pub open spec fn next_living(players: Seq<PlayerView>, turn: int) -> int {
    seek_living(
        players,
        seat_after(turn, players.len() as int),
        (players.len() - 1) as nat,
        turn,
    )
}

/// The seat reached from `seat` after `steps` steps round a table of
/// `seats` players, for fewer steps than seats.
pub open spec fn seat_at(seat: int, steps: int, seats: int) -> int {
    if seat + steps >= seats {
        seat + steps - seats
    } else {
        seat + steps
    }
}

/// How many steps round a table of `seats` players lead from `from` to `to`.
pub open spec fn steps_between(from: int, to: int, seats: int) -> int {
    if to >= from {
        to - from
    } else {
        to - from + seats
    }
}

/// Whether seat `seat` is passed over when the turn goes from `from` round
/// the table to `to`.
pub open spec fn passed_over(from: int, to: int, seat: int) -> bool {
    if from < to {
        from < seat < to
    } else {
        seat > from || seat < to
    }
}

/// What the search for a living player finds: a seat of the table; a living
/// player where one lies within reach, with only dead players before them;
/// the fallback otherwise.
pub proof fn lemma_seek_living(players: Seq<PlayerView>, candidate: int, left: nat, fallback: int)
    requires
        0 <= candidate < players.len(),
        0 <= fallback < players.len(),
        left < players.len(),
    ensures
        0 <= seek_living(players, candidate, left, fallback) < players.len(),
        ({
            let found = seek_living(players, candidate, left, fallback);
            let reach = steps_between(candidate, found, players.len() as int);
            if exists|k: int|
                0 <= k < left && players[#[trigger] seat_at(
                    candidate,
                    k,
                    players.len() as int,
                )].alive {
                &&& players[found].alive
                &&& reach < left
                &&& found == seat_at(candidate, reach, players.len() as int)
                &&& forall|k: int|
                    0 <= k < reach ==> !players[#[trigger] seat_at(
                        candidate,
                        k,
                        players.len() as int,
                    )].alive
            } else {
                found == fallback
            }
        }),
    decreases left,
{
    let seats = players.len() as int;
    let found = seek_living(players, candidate, left, fallback);
    if left == 0 {
    } else if players[candidate].alive {
        assert(seat_at(candidate, 0, seats) == candidate);
    } else {
        let next = seat_after(candidate, seats);
        lemma_seek_living(players, next, (left - 1) as nat, fallback);
        assert forall|k: int| 0 <= k < left - 1 implies seat_at(next, k, seats) == seat_at(
            candidate,
            k + 1,
            seats,
        ) by {}
        assert(seat_at(candidate, 0, seats) == candidate);
        if exists|k: int| 0 <= k < left && players[#[trigger] seat_at(candidate, k, seats)].alive {
            let k = choose|k: int|
                0 <= k < left && players[#[trigger] seat_at(candidate, k, seats)].alive;
            assert(k > 0);
            assert(seat_at(next, k - 1, seats) == seat_at(candidate, k, seats));
            let reach = steps_between(next, found, seats);
            assert(found == seat_at(next, reach, seats));
            assert(found == seat_at(candidate, reach + 1, seats));
            assert(steps_between(candidate, found, seats) == reach + 1);
            assert forall|j: int| 0 <= j < reach + 1 implies !players[#[trigger] seat_at(
                candidate,
                j,
                seats,
            )].alive by {
                if j > 0 {
                    assert(seat_at(next, j - 1, seats) == seat_at(candidate, j, seats));
                }
            }
        } else {
            if exists|k: int|
                0 <= k < left - 1 && players[#[trigger] seat_at(next, k, seats)].alive {
                let k = choose|k: int|
                    0 <= k < left - 1 && players[#[trigger] seat_at(next, k, seats)].alive;
                assert(seat_at(candidate, k + 1, seats) == seat_at(next, k, seats));
            }
        }
    }
}

/// Turn order: the turn passes to a seat of the table. Where another player
/// lives, it passes to a living player other than the one whose turn it
/// was, and every player passed over on the way round the table is dead.
/// Where nobody else lives, it stays where it is.
pub proof fn lemma_next_living(players: Seq<PlayerView>, turn: int)
    requires
        0 <= turn < players.len(),
    ensures
        0 <= next_living(players, turn) < players.len(),
        (exists|seat: int| 0 <= seat < players.len() && seat != turn && players[seat].alive) ==> {
            &&& next_living(players, turn) != turn
            &&& players[next_living(players, turn)].alive
            &&& forall|seat: int|
                0 <= seat < players.len() && passed_over(turn, next_living(players, turn), seat)
                    ==> !players[seat].alive
        },
        !(exists|seat: int| 0 <= seat < players.len() && seat != turn && players[seat].alive)
            ==> next_living(players, turn) == turn,
{
    let seats = players.len() as int;
    let first = seat_after(turn, seats);
    let left = (seats - 1) as nat;
    let found = next_living(players, turn);
    lemma_seek_living(players, first, left, turn);
    assert forall|k: int| 0 <= k < left implies seat_at(first, k, seats) != turn && 0 <= seat_at(
        first,
        k,
        seats,
    ) < seats by {}
    if exists|seat: int| 0 <= seat < seats && seat != turn && players[seat].alive {
        let seat = choose|seat: int| 0 <= seat < seats && seat != turn && players[seat].alive;
        let k = steps_between(first, seat, seats);
        assert(seat_at(first, k, seats) == seat);
        assert(0 <= k < left);
        let reach = steps_between(first, found, seats);
        assert forall|other: int|
            0 <= other < seats && passed_over(turn, found, other) implies !players[other].alive by {
            let j = steps_between(first, other, seats);
            assert(seat_at(first, j, seats) == other);
            assert(0 <= j < reach);
        }
    } else {
        if exists|k: int| 0 <= k < left && players[#[trigger] seat_at(first, k, seats)].alive {
            let k = choose|k: int|
                0 <= k < left && players[#[trigger] seat_at(first, k, seats)].alive;
            assert(seat_at(first, k, seats) != turn);
        }
    }
}

/// The sum of `weight` over the players.
pub open spec fn tally(players: Seq<PlayerView>, weight: spec_fn(PlayerView) -> nat) -> nat
    decreases players.len(),
{
    if players.len() == 0 {
        0
    } else {
        tally(players.drop_last(), weight) + weight(players.last())
    }
}

/// One for a living player, nothing for a dead one.
pub open spec fn alive_weight() -> spec_fn(PlayerView) -> nat {
    |p: PlayerView|
        if p.alive {
            1nat
        } else {
            0nat
        }
}

/// How many cards of kind `card` a player holds.
pub open spec fn kind_weight(card: GameCard) -> spec_fn(PlayerView) -> nat {
    |p: PlayerView| count_of(p.hand, card)
}

/// How many cards a player holds.
pub open spec fn hand_weight() -> spec_fn(PlayerView) -> nat {
    |p: PlayerView| p.hand.len()
}

/// How many players live.
pub open spec fn living(players: Seq<PlayerView>) -> nat {
    tally(players, alive_weight())
}

/// How many cards of kind `card` all hands hold together.
pub open spec fn in_hands(players: Seq<PlayerView>, card: GameCard) -> nat {
    tally(players, kind_weight(card))
}

/// How many cards all hands hold together.
pub open spec fn hand_cards(players: Seq<PlayerView>) -> nat {
    tally(players, hand_weight())
}

/// Replacing one player changes a tally by the difference of the two weights.
pub proof fn lemma_tally_update(
    players: Seq<PlayerView>,
    weight: spec_fn(PlayerView) -> nat,
    seat: int,
    player: PlayerView,
)
    requires
        0 <= seat < players.len(),
    ensures
        tally(players.update(seat, player), weight) == tally(players, weight) - weight(
            players[seat],
        ) + weight(player),
        tally(players, weight) >= weight(players[seat]),
    decreases players.len(),
{
    let changed = players.update(seat, player);
    if seat == players.len() - 1 {
        assert(changed.drop_last() =~= players.drop_last());
    } else {
        lemma_tally_update(players.drop_last(), weight, seat, player);
        assert(changed.drop_last() =~= players.drop_last().update(seat, player));
    }
}

/// How many hyperspace jumps lie at the front of `track`.
pub open spec fn hyperspace_run(track: Seq<SpaceCard>) -> nat
    decreases track.len(),
{
    if track.len() > 0 && track[0] == SpaceCard::Hyperspace {
        1 + hyperspace_run(track.drop_first())
    } else {
        0
    }
}

/// The run of jumps at the front of a track is no longer than the track.
pub proof fn lemma_hyperspace_run_bound(track: Seq<SpaceCard>)
    ensures
        hyperspace_run(track) <= track.len(),
    decreases track.len(),
{
    if track.len() > 0 && track[0] == SpaceCard::Hyperspace {
        lemma_hyperspace_run_bound(track.drop_first());
    }
}

/// A track that starts with `jumps` hyperspace jumps and then ends or goes
/// on with another card has a run of exactly `jumps`.
pub proof fn lemma_hyperspace_run(track: Seq<SpaceCard>, jumps: int)
    requires
        0 <= jumps <= track.len(),
        forall|i: int| 0 <= i < jumps ==> track[i] == SpaceCard::Hyperspace,
        jumps == track.len() || track[jumps] != SpaceCard::Hyperspace,
    ensures
        hyperspace_run(track) == jumps,
    decreases jumps,
{
    if jumps > 0 {
        let rest = track.drop_first();
        assert forall|i: int| 0 <= i < jumps - 1 implies rest[i] == SpaceCard::Hyperspace by {
            assert(rest[i] == track[i + 1]);
        }
        if jumps < track.len() {
            assert(rest[jumps - 1] == track[jumps]);
        }
        lemma_hyperspace_run(rest, jumps - 1);
    }
}

/// One action of a turn: what was played, the state it led to and how it
/// ended.
pub struct Play {
    pub action: Action,
    pub after: GameView,
    pub result: Result<(), SelfishError>,
}

/// The state of a game.
pub struct GameView {
    pub players: Seq<PlayerView>,
    /// The pile that action cards are drawn from, the top card last.
    pub available: Seq<GameCard>,
    pub discard: Seq<GameCard>,
    /// The space cards still to come, the next one first.
    pub track: Seq<SpaceCard>,
    pub whose_turn: int,
    pub phase: Phase,
    pub game_over: bool,
    /// The generator. The rules know nothing of it but whether it is the
    /// one it was: a move that leaves it alone has drawn nothing from it.
    pub rng: ChaCha8Rng,
}

impl GameView {
    /// Whether `seat` is a seat of the roster.
    pub open spec fn seated(self, seat: int) -> bool {
        0 <= seat < self.players.len()
    }

    /// Whether `seat` is the seat of a living player.
    pub open spec fn lives(self, seat: int) -> bool {
        self.seated(seat) && self.players[seat].alive
    }

    /// How many cards of kind `card` the hands and the two piles hold.
    pub open spec fn total(self, card: GameCard) -> nat {
        in_hands(self.players, card) + count_of(self.available, card) + count_of(
            self.discard,
            card,
        )
    }

    /// The state with another hand for the player at `seat`.
    pub open spec fn with_hand(self, seat: int, hand: Seq<GameCard>) -> GameView {
        GameView {
            players: self.players.update(seat, PlayerView { hand, ..self.players[seat] }),
            ..self
        }
    }

    /// The state with another track for the player at `seat`.
    pub open spec fn with_space(self, seat: int, space: Seq<SpaceCard>) -> GameView {
        GameView {
            players: self.players.update(seat, PlayerView { space, ..self.players[seat] }),
            ..self
        }
    }

    /// The state with another generator: what is left of it after a draw.
    pub open spec fn with_rng(self, rng: ChaCha8Rng) -> GameView {
        GameView { rng, ..self }
    }

    /// The player at `seat` gets `card`.
    pub open spec fn gain(self, seat: int, card: GameCard) -> GameView {
        self.with_hand(seat, self.players[seat].hand.push(card))
    }

    /// The player at `seat` parts with their first `card`, if they hold one.
    pub open spec fn lose(self, seat: int, card: GameCard) -> GameView {
        self.with_hand(seat, without_first(self.players[seat].hand, card))
    }

    /// `card` is laid on the discard pile.
    pub open spec fn laid(self, card: GameCard) -> GameView {
        GameView { discard: self.discard.push(card), ..self }
    }

    /// The player at `seat` discards their first `card`; nothing happens
    /// where they hold none.
    pub open spec fn spend(self, seat: int, card: GameCard) -> GameView {
        if self.players[seat].hand.contains(card) {
            self.lose(seat, card).laid(card)
        } else {
            self
        }
    }

    /// The game is over once exactly one player lives.
    pub open spec fn judged(self) -> GameView {
        GameView { game_over: self.game_over || living(self.players) == 1, ..self }
    }

    /// The turn passes to the next living player, who starts by picking up.
    pub open spec fn end_turn(self) -> GameView {
        GameView {
            whose_turn: next_living(self.players, self.whose_turn),
            phase: Phase::Pickup,
            ..self
        }
    }

    /// The player at `seat` dies. Where it was their turn, the turn ends.
    pub open spec fn eliminate(self, seat: int) -> GameView {
        let dead = GameView {
            players: self.players.update(seat, PlayerView { alive: false, ..self.players[seat] }),
            ..self
        }.judged();
        if seat == self.whose_turn {
            dead.end_turn()
        } else {
            dead
        }
    }

    /// The player whose turn it is discards a `card` or, holding none, dies.
    pub open spec fn discard_or_die(self, card: GameCard) -> GameView {
        if self.players[self.whose_turn].hand.contains(card) {
            self.spend(self.whose_turn, card)
        } else {
            self.eliminate(self.whose_turn)
        }
    }

    /// The players at `a` and `b` exchange their tracks.
    pub open spec fn swap_space(self, a: int, b: int) -> GameView {
        self.with_space(a, self.players[b].space).with_space(b, self.players[a].space)
    }

    /// Why two tracks cannot be exchanged: the first of the two references
    /// that points outside the roster.
    pub open spec fn swap_refusal(self, one: PlayerReference, other: PlayerReference) -> Result<
        (),
        SelfishError,
    > {
        if !self.seated(one.0 as int) {
            Err(SelfishError::PlayerDoesNotExist(one))
        } else if !self.seated(other.0 as int) {
            Err(SelfishError::PlayerDoesNotExist(other))
        } else {
            Ok(())
        }
    }

    /// Whether the player at `seat` can answer an attack with a shield: they
    /// hold one and no solar flare lies last on their track.
    pub open spec fn can_defend(self, seat: int) -> bool {
        self.players[seat].hand.contains(GameCard::Shield) && !in_flare(self.players[seat].space)
    }

    /// Whether `after` and `card` can come of a draw by the player whose
    /// turn it is: the top card of the available pile goes to their hand;
    /// where that pile is empty, the discard pile becomes the available pile
    /// in some order first; where both are empty, nothing is drawn. Only
    /// the reshuffle draws on the generator.
    pub open spec fn drew(self, after: GameView, card: Option<GameCard>) -> bool {
        if self.available.len() > 0 {
            &&& card == Some(self.available.last())
            &&& after == (GameView { available: self.available.drop_last(), ..self }).gain(
                self.whose_turn,
                self.available.last(),
            )
        } else if self.discard.len() > 0 {
            &&& card is Some
            &&& after.available.push(card->0).to_multiset() == self.discard.to_multiset()
            &&& after == (GameView {
                available: after.available,
                discard: Seq::empty(),
                rng: after.rng,
                ..self
            }).gain(self.whose_turn, card->0)
        } else {
            card is None && after == self
        }
    }

    /// Why no card can be taken from the hand of `player`, if none can: they
    /// are no player of the roster, or their hand is empty.
    pub open spec fn nothing_to_take(self, player: PlayerReference) -> Option<SelfishError> {
        if !self.seated(player.0 as int) {
            Some(SelfishError::PlayerDoesNotExist(player))
        } else if self.players[player.0 as int].hand.len() == 0 {
            Some(SelfishError::PlayerHasNoCardsLeft)
        } else {
            None
        }
    }

    /// Whether `after` and `card` come of taking the card at `index` out of
    /// the hand of the player at `seat`, the index drawn from the generator.
    pub open spec fn robbed(self, seat: int, index: int, after: GameView, card: GameCard) -> bool {
        &&& 0 <= index < self.players[seat].hand.len()
        &&& card == self.players[seat].hand[index]
        &&& after == self.with_hand(seat, self.players[seat].hand.remove(index)).with_rng(
            after.rng,
        )
    }

    /// Whether `after` and `card` can come of the pickup that opens a turn:
    /// a draw, after which the actions phase begins.
    pub open spec fn picked_up(self, after: GameView, card: Option<GameCard>) -> bool {
        &&& after.phase == Phase::Actions
        &&& self.drew(GameView { phase: self.phase, ..after }, card)
    }

    /// Whether the effect of `action` would change the hand or the track of
    /// its target: a siphon where the target holds an `O1`, a hacked suit
    /// and a tractor beam always, a laser blast where the target has moved.
    pub open spec fn disturbs_target(self, action: Action) -> bool {
        match action {
            Action::OxygenSiphon { target } => self.players[target.0 as int].hand.contains(
                GameCard::O1,
            ),
            Action::HackSuit { .. } | Action::TractorBeam { .. } => true,
            Action::LaserBlast { target } => self.players[target.0 as int].space.len() > 0,
            Action::RocketBooster | Action::HoleInSuit { .. } | Action::Tether { .. } => false,
        }
    }

    /// Whether the player at `seat` may answer an attack with a shield: they
    /// live and can defend.
    pub open spec fn may_defend(self, seat: int) -> bool {
        self.lives(seat) && self.can_defend(seat)
    }

    /// Why `action` cannot be played, if it cannot: the first of these that
    /// holds. The target is the actor; the target is no player of the
    /// roster; the target holds fewer cards than the action steals; the
    /// target is dead and the action would change their hand or track,
    /// which stay as they were at their death; the actor does not hold the
    /// action's card.
    pub open spec fn refusal(self, action: Action) -> Option<SelfishError> {
        let card = action.spec_card();
        let unheld = if self.players[self.whose_turn].hand.contains(card) {
            None
        } else {
            Some(SelfishError::PlayerDoesNotHaveThisCard(card))
        };
        match action.spec_attacking() {
            None => unheld,
            Some(target) => {
                if target.0 == self.whose_turn {
                    Some(SelfishError::CantAttackYourself)
                } else if !self.seated(target.0 as int) {
                    Some(SelfishError::PlayerDoesNotExist(target))
                } else if action.spec_rules().steal is Some && action.spec_rules().steal->0.count
                    > self.players[target.0 as int].hand.len() {
                    Some(
                        SelfishError::PlayerDoesNotHaveEnoughCards(
                            target,
                            action.spec_rules().steal->0.count,
                        ),
                    )
                } else if !self.players[target.0 as int].alive && self.disturbs_target(action) {
                    Some(SelfishError::PlayerDoesNotExist(target))
                } else {
                    unheld
                }
            },
        }
    }

    /// The target spends a shield.
    pub open spec fn shielded(self, target: int) -> GameView {
        self.spend(target, GameCard::Shield)
    }

    /// The oxygen siphon strikes `target`. A target without `O1` dies. A
    /// target with one `O1` loses it to the actor and dies. Any other target
    /// loses two `O1`, of which the actor gets one.
    pub open spec fn siphoned(self, target: int) -> GameView {
        let oxygen = count_of(self.players[target].hand, GameCard::O1);
        if oxygen == 0 {
            self.eliminate(target)
        } else if oxygen == 1 {
            self.lose(target, GameCard::O1).gain(self.whose_turn, GameCard::O1).eliminate(target)
        } else {
            self.lose(target, GameCard::O1).lose(target, GameCard::O1).gain(
                self.whose_turn,
                GameCard::O1,
            )
        }
    }

    /// The first `card` of `target` goes to the actor.
    pub open spec fn hacked(self, target: int, card: GameCard) -> GameView {
        self.lose(target, card).gain(self.whose_turn, card)
    }

    /// The card at `index` in the hand of `target` goes to the actor.
    pub open spec fn beamed(self, target: int, index: int) -> GameView {
        self.with_hand(target, self.players[target].hand.remove(index)).gain(
            self.whose_turn,
            self.players[target].hand[index],
        )
    }

    /// The latest card leaves the track of `target`, if there is one.
    pub open spec fn blasted(self, target: int) -> GameView {
        if self.players[target].space.len() > 0 {
            self.with_space(target, self.players[target].space.drop_last())
        } else {
            self
        }
    }

    /// The end of an action: the actor discards the action's card. A dead
    /// actor keeps their hand, and an actor who no longer holds the card
    /// gets the error for that.
    pub open spec fn played(self, actor: int, card: GameCard) -> (
        GameView,
        Result<(), SelfishError>,
    ) {
        if !self.players[actor].alive {
            (self, Ok(()))
        } else if self.players[actor].hand.contains(card) {
            (self.spend(actor, card), Ok(()))
        } else {
            (self, Err(SelfishError::PlayerDoesNotHaveThisCard(card)))
        }
    }

    /// The player whose turn it is discards `cards` one after the other and
    /// stops with an error at the first that they do not hold.
    pub open spec fn shed(self, cards: Seq<GameCard>) -> (GameView, Result<(), SelfishError>)
        decreases cards.len(),
    {
        if cards.len() == 0 {
            (self, Ok(()))
        } else if !self.players[self.whose_turn].hand.contains(cards[0]) {
            (self, Err(SelfishError::PlayerDoesNotHaveThisCard(cards[0])))
        } else {
            self.spend(self.whose_turn, cards[0]).shed(cards.drop_first())
        }
    }

    /// The answer `cards` to a demand for `expected` discards: refused where
    /// it has another length, carried out card by card otherwise.
    pub open spec fn forced_discard(self, expected: usize, cards: Seq<GameCard>) -> (
        GameView,
        Result<(), SelfishError>,
    ) {
        if cards.len() != expected {
            (
                self,
                Err(
                    SelfishError::InvalidDiscardCount {
                        expected,
                        actual: cards.len() as usize,
                    },
                ),
            )
        } else {
            self.shed(cards)
        }
    }

    /// The traveller exchanges tracks with `other`, who must be a living
    /// player of the roster.
    pub open spec fn worm_hole(self, other: PlayerReference) -> (
        GameView,
        Result<(), SelfishError>,
    ) {
        if !self.lives(other.0 as int) {
            (self, Err(SelfishError::PlayerDoesNotExist(other)))
        } else {
            (self.swap_space(self.whose_turn, other.0 as int), Ok(()))
        }
    }

    /// Whether `after` and `result` can come of the traveller landing on
    /// `card`, which already lies on their track.
    pub open spec fn landed(
        self,
        card: SpaceCard,
        after: GameView,
        result: Result<(), SelfishError>,
    ) -> bool {
        let traveller = self.whose_turn;
        match card {
            SpaceCard::BlankSpace | SpaceCard::SolarFlare | SpaceCard::Hyperspace => after == self
                && result is Ok,
            SpaceCard::UsefulJunk => result is Ok && exists|card: Option<GameCard>|
                self.drew(after, card),
            SpaceCard::MysteriousNebula => result is Ok && exists|
                between: GameView,
                first: Option<GameCard>,
                second: Option<GameCard>,
            | #[trigger] self.drew(between, first) && #[trigger] between.drew(after, second),
            SpaceCard::Meteoroid => if self.players[traveller].hand.len() > 6 {
                exists|cards: Seq<GameCard>|
                    (after, result) == #[trigger] self.forced_discard(2, cards)
            } else {
                after == self && result is Ok
            },
            SpaceCard::CosmicRadiation => after == self.discard_or_die(GameCard::O1)
                && result is Ok,
            SpaceCard::AsteroidField => {
                let once = self.discard_or_die(GameCard::O1);
                &&& result is Ok
                &&& after == if once.players[traveller].alive {
                    once.discard_or_die(GameCard::O1)
                } else {
                    once
                }
            },
            SpaceCard::GravitationalAnomaly => after == self.blasted(traveller) && result is Ok,
            SpaceCard::WormHole => exists|other: PlayerReference|
                (after, result) == #[trigger] self.worm_hole(other),
        }
    }

    /// The state after the traveller has drawn the first `drawn` cards of
    /// the track.
    pub open spec fn advanced(self, drawn: int) -> GameView {
        GameView { track: self.track.skip(drawn), ..self }.with_space(
            self.whose_turn,
            self.players[self.whose_turn].space + self.track.take(drawn),
        )
    }

    /// Whether `after` and `result` can come of the player whose turn it is
    /// moving along the track. They draw space cards until one is no
    /// hyperspace jump, and land on that one. Where the deck runs out first,
    /// they stay on the last jump, or where they were.
    pub open spec fn travelled(self, after: GameView, result: Result<(), SelfishError>) -> bool {
        let jumps = hyperspace_run(self.track);
        if jumps == self.track.len() {
            after == self.advanced(jumps as int) && result is Ok
        } else {
            self.advanced(jumps as int + 1).landed(self.track[jumps as int], after, result)
        }
    }

    /// Whether `after` and `result` can come of `action` once the target
    /// has not defended.
    pub open spec fn struck(
        self,
        action: Action,
        after: GameView,
        result: Result<(), SelfishError>,
    ) -> bool {
        let actor = self.whose_turn;
        let card = action.spec_card();
        match action {
            Action::OxygenSiphon { target } => (after, result) == self.siphoned(
                target.0 as int,
            ).played(actor, card),
            Action::HackSuit { target } => exists|choice: GameCard|
                (after, result) == #[trigger] self.hack_suit(target, choice),
            Action::TractorBeam { target } => exists|index: int|
                0 <= index < self.players[target.0 as int].hand.len() && (after, result)
                    == #[trigger] self.beamed(target.0 as int, index).with_rng(after.rng).played(
                    actor,
                    card,
                ),
            Action::RocketBooster => exists|landing: GameView, travel: Result<(), SelfishError>|
                #[trigger] self.travelled(landing, travel) && (after, result) == if travel is Ok {
                    landing.played(actor, card)
                } else {
                    (landing, travel)
                },
            Action::LaserBlast { target } => (after, result) == self.blasted(
                target.0 as int,
            ).played(actor, card),
            Action::HoleInSuit { .. } | Action::Tether { .. } => (after, result) == self.played(
                actor,
                card,
            ),
        }
    }

    /// The suit of `target` is hacked for a card of kind `choice`: it goes
    /// to the actor, who discards the hack. Nothing happens, and the error
    /// says why, where `target` is no player of the roster or holds no such
    /// card.
    pub open spec fn hack_suit(self, target: PlayerReference, choice: GameCard) -> (
        GameView,
        Result<(), SelfishError>,
    ) {
        if !self.seated(target.0 as int) {
            (self, Err(SelfishError::PlayerDoesNotExist(target)))
        } else if self.players[target.0 as int].hand.contains(choice) {
            self.hacked(target.0 as int, choice).played(self.whose_turn, GameCard::HackSuit)
        } else {
            (self, Err(SelfishError::PlayerDoesNotHaveThisCard(choice)))
        }
    }

    /// What becomes of an action that the rules admit, once the target has
    /// answered: a target who defends spends a shield and the action does
    /// nothing; either way the actor discards the action's card.
    pub open spec fn answered(
        self,
        action: Action,
        defended: bool,
        after: GameView,
        result: Result<(), SelfishError>,
    ) -> bool {
        if defended {
            (after, result) == self.shielded(action.target_seat()).played(
                self.whose_turn,
                action.spec_card(),
            )
        } else {
            self.struck(action, after, result)
        }
    }

    /// Whether `after` and `result` can come of playing `action`: an action
    /// that the rules refuse changes nothing; any other is answered by the
    /// target, who can defend only alive, with a shield and out of a solar
    /// flare.
    pub open spec fn resolved(
        self,
        action: Action,
        after: GameView,
        result: Result<(), SelfishError>,
    ) -> bool {
        match self.refusal(action) {
            Some(error) => after == self && result == Err::<(), SelfishError>(error),
            None => {
                ||| self.answered(action, false, after, result)
                ||| {
                    &&& action.spec_attacking() is Some
                    &&& self.may_defend(action.target_seat())
                    &&& self.answered(action, true, after, result)
                }
            },
        }
    }

    /// Whether the hands and the two piles hold of each kind of card as
    /// many as the deck started with.
    pub open spec fn intact(self) -> bool {
        forall|card: GameCard| #[trigger] self.total(card) == copies(card)
    }

    /// Whether the dead of this state are in `after` as they are here, at a
    /// table of the same size.
    pub open spec fn frozen(self, after: GameView) -> bool {
        &&& after.players.len() == self.players.len()
        &&& forall|seat: int|
            0 <= seat < self.players.len() && !self.players[seat].alive
                ==> #[trigger] after.players[seat] == self.players[seat]
    }

    /// Whether `after` holds of each kind of card as many as this state.
    pub open spec fn conserved(self, after: GameView) -> bool {
        forall|card: GameCard| #[trigger] after.total(card) == self.total(card)
    }

    /// Whether `after` holds of each kind of card as many as this state,
    /// but for `O1`, of which it may hold fewer.
    pub open spec fn taxed(self, after: GameView) -> bool {
        forall|card: GameCard|
            #![trigger after.total(card)]
            after.total(card) <= self.total(card) && (card != GameCard::O1 ==> after.total(card)
                == self.total(card))
    }

    /// Whether the game is over unless two players or more live.
    pub open spec fn settled(self) -> bool {
        self.game_over || living(self.players) >= 2
    }

    /// Whether at most one player lives if the game is over.
    pub open spec fn decided(self) -> bool {
        self.game_over ==> living(self.players) <= 1
    }

    /// What holds of every state `after` that play leads to from this one:
    /// the table keeps its size, the dead stay as they are, no card appears
    /// and only `O1` can vanish, a game that is over stays over, a game
    /// that goes on has two living players or more, a game that is over has
    /// one at most, and the track deck does not grow.
    pub open spec fn follows(self, after: GameView) -> bool {
        &&& self.frozen(after)
        &&& self.taxed(after)
        &&& self.game_over ==> after.game_over
        &&& self.settled() ==> after.settled()
        &&& self.decided() ==> after.decided()
        &&& after.track.len() <= self.track.len()
    }

    /// Whether `after` and `result` can come of the player whose turn it is
    /// ending their turn by `choice`. To breathe is to discard an `O1`. To
    /// travel is to discard an `O2` and move along the track. Either way
    /// the turn ends, unless the player holds no such card, which changes
    /// nothing.
    pub open spec fn oxygen_spent(
        self,
        choice: BreatheOrTravel,
        after: GameView,
        result: Result<(), SelfishError>,
    ) -> bool {
        let player = self.whose_turn;
        match choice {
            BreatheOrTravel::Breathe => if self.players[player].hand.contains(GameCard::O1) {
                after == self.spend(player, GameCard::O1).end_turn() && result is Ok
            } else {
                after == self && result == Err::<(), SelfishError>(
                    SelfishError::PlayerDoesNotHaveThisCard(GameCard::O1),
                )
            },
            BreatheOrTravel::Travel => if self.players[player].hand.contains(GameCard::O2) {
                exists|landing: GameView| #[trigger]
                    self.spend(player, GameCard::O2).travelled(landing, result) && after
                        == landing.turn_over(player)
            } else {
                after == self && result == Err::<(), SelfishError>(
                    SelfishError::PlayerDoesNotHaveThisCard(GameCard::O2),
                )
            },
        }
    }

    /// The turn of `player` is over: it ends now unless the death of the
    /// player has ended it already.
    pub open spec fn turn_over(self, player: int) -> GameView {
        if self.players[player].alive {
            self.end_turn()
        } else {
            self
        }
    }

    /// Whether `after` and `result` can come of the step that closes a
    /// turn. A player without oxygen dies. A player with one kind of oxygen
    /// spends a card of that kind. A player with both kinds spends either.
    pub open spec fn turn_closed(self, after: GameView, result: Result<(), SelfishError>) -> bool {
        let start = GameView { phase: Phase::BreatheOrTravel, ..self };
        let has_o1 = self.players[self.whose_turn].hand.contains(GameCard::O1);
        let has_o2 = self.players[self.whose_turn].hand.contains(GameCard::O2);
        if !has_o1 && !has_o2 {
            after == start.eliminate(self.whose_turn) && result is Ok
        } else {
            ||| has_o1 && start.oxygen_spent(BreatheOrTravel::Breathe, after, result)
            ||| has_o2 && start.oxygen_spent(BreatheOrTravel::Travel, after, result)
        }
    }

    /// The state that the actions `plays` of a turn lead to from this one.
    pub open spec fn after_plays(self, plays: Seq<Play>) -> GameView {
        if plays.len() == 0 {
            self
        } else {
            plays.last().after
        }
    }

    /// Whether the player at `actor` can be asked for an action: they live
    /// and no solar flare lies last on their track.
    pub open spec fn can_act(self, actor: int) -> bool {
        self.players[actor].alive && !in_flare(self.players[actor].space)
    }

    /// Whether `plays` can be the actions of the player whose turn it is,
    /// one after the other from this state on. The player is asked for an
    /// action only as long as they live, stay out of a solar flare, and no
    /// action of theirs has failed.
    pub open spec fn acted(self, plays: Seq<Play>) -> bool
        decreases plays.len(),
    {
        plays.len() == 0 || {
            let earlier = plays.drop_last();
            let before = self.after_plays(earlier);
            &&& self.acted(earlier)
            &&& earlier.len() > 0 ==> earlier.last().result is Ok
            &&& before.can_act(self.whose_turn)
            &&& before.resolved(plays.last().action, plays.last().after, plays.last().result)
        }
    }

    /// Whether `after` and `result` can come of one whole turn of the
    /// player whose turn it is. They pick up a card and play actions. Then
    /// they close the turn by breathing or travelling, unless an action has
    /// killed them, which ends the turn at once with the result of that
    /// action.
    pub open spec fn turn_taken(self, after: GameView, result: Result<(), SelfishError>) -> bool {
        exists|card: Option<GameCard>, start: GameView, plays: Seq<Play>|
            {
                &&& #[trigger] self.picked_up(start, card)
                &&& #[trigger] start.acted(plays)
                &&& if start.after_plays(plays).players[self.whose_turn].alive {
                    start.after_plays(plays).turn_closed(after, result)
                } else {
                    after == start.after_plays(plays) && plays.len() > 0 && result
                        == plays.last().result
                }
            }
    }

    /// The state in which the next turn starts: this one, but where the
    /// player whose turn it is has died, the turn has passed on.
    pub open spec fn ready(self) -> GameView {
        if self.players[self.whose_turn].alive {
            self
        } else {
            GameView { whose_turn: next_living(self.players, self.whose_turn), ..self }
        }
    }

    /// The state that the whole turns `turns` lead to from this one, each
    /// given by the state at its end.
    pub open spec fn after_turns(self, turns: Seq<GameView>) -> GameView {
        if turns.len() == 0 {
            self
        } else {
            turns.last()
        }
    }

    /// Whether `turns` can be the states at the end of successive whole
    /// turns from this state on. Each turn is that of a living player, and
    /// none is played once the game is over.
    pub open spec fn played_on(self, turns: Seq<GameView>) -> bool
        decreases turns.len(),
    {
        turns.len() == 0 || {
            let earlier = turns.drop_last();
            let before = self.after_turns(earlier).ready();
            &&& self.played_on(earlier)
            &&& !before.game_over
            &&& before.lives(before.whose_turn)
            &&& exists|result: Result<(), SelfishError>| before.turn_taken(turns.last(), result)
        }
    }

    /// Whether landing on `card` puts a question to the traveller's agent:
    /// a worm hole does, and a meteoroid does where the hand holds more
    /// than six cards.
    pub open spec fn landing_asks(self, card: SpaceCard) -> bool {
        card == SpaceCard::WormHole || (card == SpaceCard::Meteoroid
            && self.players[self.whose_turn].hand.len() > 6)
    }

    /// Whether travel from this state puts a question to an agent: it does
    /// where the card that the traveller lands on does.
    pub open spec fn travel_asks(self) -> bool {
        hyperspace_run(self.track) < self.track.len() && self.landing_asks(
            self.track[hyperspace_run(self.track) as int],
        )
    }

    /// Whether the effect of `action` puts a question to an agent: hacking
    /// a suit does, and a rocket booster does where the travel does.
    pub open spec fn strike_asks(self, action: Action) -> bool {
        action is HackSuit || (action is RocketBooster && self.travel_asks())
    }

    /// Whether playing `action` puts a question to an agent: a refused
    /// action never does; an admitted one does where the target can defend
    /// or the effect asks.
    pub open spec fn action_asks(self, action: Action) -> bool {
        self.refusal(action) is None && (self.strike_asks(action) || (action.spec_attacking()
            is Some && self.may_defend(action.target_seat())))
    }

    /// Whether ending the turn by `choice` puts a question to an agent: only
    /// travel can.
    pub open spec fn oxygen_asks(self, choice: BreatheOrTravel) -> bool {
        &&& choice == BreatheOrTravel::Travel
        &&& self.players[self.whose_turn].hand.contains(GameCard::O2)
        &&& self.spend(self.whose_turn, GameCard::O2).travel_asks()
    }

    /// Whether closing the turn puts a question to an agent: a player with
    /// both kinds of oxygen is asked which to spend, and travel may ask.
    pub open spec fn closing_asks(self) -> bool {
        self.players[self.whose_turn].hand.contains(GameCard::O2) && (
        self.players[self.whose_turn].hand.contains(GameCard::O1) || self.spend(
            self.whose_turn,
            GameCard::O2,
        ).travel_asks())
    }
}

} // verus!
