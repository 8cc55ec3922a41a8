//! The agent that decides for a player, and one that decides at random.

use crate::actions::{Action, BreatheOrTravel};
use crate::game::PlayerReference;
use crate::game_cards::GameCard;
use crate::rng::{entropy_rng, pick_one, random_bool, shuffle};
use crate::visible_state::{copy_of, VisibleState, VisibleStateView};
use rand_chacha::ChaCha8Rng;
use vstd::prelude::*;

verus! {

/// The decisions that the game asks of a player. The game holds one agent
/// per player and knows nothing of how it decides.
pub trait PlayerController {
    /// Shows the agent what its player can see. Called before each decision.
    fn update_state(&mut self, visible_state: VisibleState);

    /// The next action of the player, or `None` to go on to breathing.
    fn play_action(&mut self) -> Option<Action>;

    /// Asked only of a player who holds both kinds of oxygen.
    fn breathe_or_travel(&mut self) -> BreatheOrTravel;

    /// Whether to spend a shield against `action`. Asked only of a target
    /// who can defend.
    fn defend(&mut self, action: &Action) -> bool;

    /// Which `card_count` cards of the hand to give up.
    fn forced_discard(&mut self, card_count: usize) -> Vec<GameCard>;

    /// With whom to exchange tracks after a worm hole.
    fn choose_player_to_swap_with(&mut self) -> PlayerReference;

    /// Which kind of card to take from a hacked suit. `options` holds the
    /// kinds that the target has, each once, and there is at least one.
    fn choose_card_to_take(&mut self, options: Vec<GameCard>) -> GameCard
        requires
            options@.len() > 0,
            options@.no_duplicates(),
    ;
}

/// Whether the player at `seat` is somebody else than the one whose turn it
/// is and meets the demands: to live, to hold `needs_cards` cards, to have
/// moved along the track.
pub open spec fn is_target(
    state: VisibleStateView,
    seat: int,
    needs_to_be_alive: bool,
    needs_cards: nat,
    needs_to_have_space: bool,
) -> bool {
    &&& seat != state.whose_turn
    &&& needs_to_be_alive ==> state.players[seat].alive
    &&& needs_cards > 0 ==> state.players[seat].hand_size >= needs_cards
    &&& needs_to_have_space ==> state.players[seat].space.len() > 0
}

/// The targets among the first `seats` players, in the order of the roster.
pub open spec fn targets_among(
    state: VisibleStateView,
    seats: nat,
    needs_to_be_alive: bool,
    needs_cards: nat,
    needs_to_have_space: bool,
) -> Seq<PlayerReference>
    decreases seats,
{
    if seats == 0 {
        Seq::empty()
    } else {
        let before = targets_among(
            state,
            (seats - 1) as nat,
            needs_to_be_alive,
            needs_cards,
            needs_to_have_space,
        );
        if is_target(state, seats - 1, needs_to_be_alive, needs_cards, needs_to_have_space) {
            before.push(PlayerReference((seats - 1) as usize))
        } else {
            before
        }
    }
}

/// The players that the one whose turn it is may aim at, in the order of
/// the roster.
pub fn potential_targets(
    visible_state: &VisibleState,
    needs_to_be_alive: bool,
    needs_cards: usize,
    needs_to_have_space: bool,
) -> (found: Vec<PlayerReference>)
    ensures
        found@ == targets_among(
            visible_state@,
            visible_state@.players.len(),
            needs_to_be_alive,
            needs_cards as nat,
            needs_to_have_space,
        ),
{
    let mut found: Vec<PlayerReference> = Vec::new();
    let mut idx: usize = 0;
    while idx < visible_state.players.len()
        invariant
            idx <= visible_state.players@.len(),
            visible_state@.players.len() == visible_state.players@.len(),
            found@ == targets_among(
                visible_state@,
                idx as nat,
                needs_to_be_alive,
                needs_cards as nat,
                needs_to_have_space,
            ),
        decreases visible_state.players@.len() - idx,
    {
        let player = &visible_state.players[idx];
        assert(visible_state@.players[idx as int] == player@);
        let player_reference = PlayerReference(idx);
        let skip = player_reference == visible_state.whose_turn || (needs_to_be_alive
            && !player.alive) || (needs_cards > 0 && player.hand_size < needs_cards) || (
        needs_to_have_space && player.space.is_empty());
        if !skip {
            found.push(player_reference);
        }
        idx += 1;
    }
    found
}

/// The action that the first playable card of `hand` stands for, aimed at
/// `target`; a laser blast or a tether is aimed at `travelled`, a target who
/// has moved along the track, and nothing is played where there is none.
pub open spec fn first_playable(
    hand: Seq<GameCard>,
    target: PlayerReference,
    travelled: Option<PlayerReference>,
) -> Option<Action>
    decreases hand.len(),
{
    if hand.len() == 0 {
        None
    } else {
        match hand[0] {
            GameCard::OxygenSiphon => Some(Action::OxygenSiphon { target }),
            GameCard::HackSuit => Some(Action::HackSuit { target }),
            GameCard::TractorBeam => Some(Action::TractorBeam { target }),
            GameCard::RocketBooster => Some(Action::RocketBooster),
            GameCard::LaserBlast => match travelled {
                Some(target) => Some(Action::LaserBlast { target }),
                None => None,
            },
            GameCard::HoleInSuit => Some(Action::HoleInSuit { target }),
            GameCard::Tether => match travelled {
                Some(target) => Some(Action::Tether { target }),
                None => None,
            },
            GameCard::O1 | GameCard::O2 | GameCard::Shield => first_playable(
                hand.drop_first(),
                target,
                travelled,
            ),
        }
    }
}

/// The first of `targets`, if there is one.
pub open spec fn first_of(targets: Seq<PlayerReference>) -> Option<PlayerReference> {
    if targets.len() == 0 {
        None
    } else {
        Some(targets[0])
    }
}

/// What `random_action` plays on `state`: nothing without a living target
/// who holds a card, else the first playable card of the hand.
pub open spec fn planned_action(state: VisibleStateView) -> Option<Action> {
    let targets = targets_among(state, state.players.len(), true, 1, false);
    let travelled = targets_among(state, state.players.len(), true, 1, true);
    if targets.len() == 0 {
        None
    } else {
        first_playable(state.my_hand, targets[0], first_of(travelled))
    }
}

/// Plays the first card of the hand that can be played, against the first
/// living player who holds a card.
pub fn random_action(visible_state: &VisibleState) -> (action: Option<Action>)
    ensures
        action == planned_action(visible_state@),
{
    let targets = potential_targets(visible_state, true, 1, false);
    if targets.len() == 0 {
        return None;
    }
    let target = targets[0];
    let with_space = potential_targets(visible_state, true, 1, true);
    let travelled = if with_space.len() == 0 {
        None
    } else {
        Some(with_space[0])
    };
    let mut i: usize = 0;
    assert(visible_state.my_hand@.skip(0) =~= visible_state@.my_hand);
    assert(travelled == first_of(with_space@));
    while i < visible_state.my_hand.len()
        invariant
            i <= visible_state.my_hand@.len(),
            planned_action(visible_state@) == first_playable(
                visible_state.my_hand@.skip(i as int),
                target,
                travelled,
            ),
        decreases visible_state.my_hand@.len() - i,
    {
        let ghost rest = visible_state.my_hand@.skip(i as int);
        assert(rest[0] == visible_state.my_hand@[i as int]);
        assert(rest.drop_first() =~= visible_state.my_hand@.skip(i + 1));
        match visible_state.my_hand[i] {
            GameCard::OxygenSiphon => {
                return Some(Action::OxygenSiphon { target });
            },
            GameCard::HackSuit => {
                return Some(Action::HackSuit { target });
            },
            GameCard::TractorBeam => {
                return Some(Action::TractorBeam { target });
            },
            GameCard::RocketBooster => {
                return Some(Action::RocketBooster);
            },
            GameCard::LaserBlast => {
                return match travelled {
                    Some(target) => Some(Action::LaserBlast { target }),
                    None => None,
                };
            },
            GameCard::HoleInSuit => {
                return Some(Action::HoleInSuit { target });
            },
            GameCard::Tether => {
                return match travelled {
                    Some(target) => Some(Action::Tether { target }),
                    None => None,
                };
            },
            GameCard::O1 => {},
            GameCard::O2 => {},
            GameCard::Shield => {},
        }
        i += 1;
    }
    assert(visible_state.my_hand@.skip(i as int).len() == 0);
    None
}

/// What a player who leaves it to a coin does with both kinds of oxygen:
/// they breathe where it shows `true` and travel where it shows `false`.
pub fn choice_on(coin: bool) -> (choice: BreatheOrTravel)
    ensures
        choice == if coin {
            BreatheOrTravel::Breathe
        } else {
            BreatheOrTravel::Travel
        },
{
    if coin {
        BreatheOrTravel::Breathe
    } else {
        BreatheOrTravel::Travel
    }
}

/// An agent that plays whatever it can and leaves the rest to chance.
pub struct RandomPlayerController {
    pub rng: ChaCha8Rng,
    pub visible_state: VisibleState,
}

impl RandomPlayerController {
    /// An agent with a generator of its own, seeded by the operating system,
    /// that has seen no game yet.
    pub fn new() -> (agent: Self)
        ensures
            agent.visible_state.whose_turn == PlayerReference(42),
            agent.visible_state.my_hand@.len() == 0,
            agent.visible_state.players@.len() == 0,
    {
        Self { rng: entropy_rng(), visible_state: VisibleState::invalid() }
    }
}

impl PlayerController for RandomPlayerController {
    fn update_state(&mut self, visible_state: VisibleState)
        ensures
            final(self).visible_state == visible_state,
    {
        self.visible_state = visible_state;
    }

    /// The first playable card of the hand, against the first living player
    /// who holds a card.
    fn play_action(&mut self) -> (action: Option<Action>)
        ensures
            action == planned_action(old(self).visible_state@),
            final(self).visible_state == old(self).visible_state,
    {
        random_action(&self.visible_state)
    }

    /// Either, as a coin thrown by the generator decides: see `choice_on`.
    fn breathe_or_travel(&mut self) -> (choice: BreatheOrTravel)
        ensures
            final(self).visible_state == old(self).visible_state,
    {
        choice_on(random_bool(&mut self.rng))
    }

    /// Always defends.
    fn defend(&mut self, action: &Action) -> (defended: bool)
        ensures
            defended,
            final(self).visible_state == old(self).visible_state,
    {
        true
    }

    /// The first `card_count` cards of the hand after a shuffle; the whole
    /// hand where it is smaller than that.
    fn forced_discard(&mut self, card_count: usize) -> (cards: Vec<GameCard>)
        ensures
            final(self).visible_state == old(self).visible_state,
            cards@.len() == if card_count <= old(self).visible_state.my_hand@.len() {
                card_count as int
            } else {
                old(self).visible_state.my_hand@.len() as int
            },
            cards@.to_multiset().subset_of(old(self).visible_state.my_hand@.to_multiset()),
    {
        let mut cards = copy_of(&self.visible_state.my_hand);
        shuffle(&mut cards, &mut self.rng);
        let ghost shuffled = cards@;
        proof {
            shuffled.to_multiset_ensures();
            old(self).visible_state.my_hand@.to_multiset_ensures();
        }
        cards.truncate(card_count);
        proof {
            lemma_prefix_is_part(shuffled, cards@.len() as int);
        }
        cards
    }

    /// Another player, picked by the generator among all of them, dead or
    /// alive; the player itself where it sees nobody else.
    fn choose_player_to_swap_with(&mut self) -> (target: PlayerReference)
        ensures
            final(self).visible_state == old(self).visible_state,
            ({
                let targets = targets_among(
                    old(self).visible_state@,
                    old(self).visible_state@.players.len(),
                    false,
                    0,
                    false,
                );
                if targets.len() == 0 {
                    target == old(self).visible_state.whose_turn
                } else {
                    targets.contains(target)
                }
            }),
    {
        let targets = potential_targets(&self.visible_state, false, 0, false);
        match pick_one(&targets, &mut self.rng) {
            Some(target) => target,
            None => self.visible_state.whose_turn,
        }
    }

    /// The first of the options.
    fn choose_card_to_take(&mut self, options: Vec<GameCard>) -> (card: GameCard)
        ensures
            card == options@[0],
            final(self).visible_state == old(self).visible_state,
    {
        options[0]
    }
}

/// The first `len` items of a sequence are part of its items.
pub proof fn lemma_prefix_is_part(items: Seq<GameCard>, len: int)
    requires
        0 <= len <= items.len(),
    ensures
        items.take(len).to_multiset().subset_of(items.to_multiset()),
{
    vstd::seq_lib::lemma_multiset_commutative(items.take(len), items.skip(len));
    assert(items.take(len) + items.skip(len) =~= items);
    broadcast use vstd::multiset::group_multiset_axioms;

}

} // verus!
