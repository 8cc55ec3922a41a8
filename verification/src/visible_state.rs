//! What a fair player can see of the game.

use crate::errors::SelfishError;
use crate::game::{Game, PlayerReference};
use crate::game_cards::GameCard;
use crate::space_cards::SpaceCard;
use crate::state::GameView;
use vstd::prelude::*;

verus! {

/// What everybody sees of one player.
pub struct VisiblePlayer {
    pub alive: bool,
    pub hand_size: usize,
    pub space: Vec<SpaceCard>,
}

/// What one player sees of the game: whose turn it is, their own hand, and
/// of every player whether they live, how many cards they hold and their
/// track. The cards in the other hands are not part of it.
pub struct VisibleState {
    pub whose_turn: PlayerReference,
    pub my_hand: Vec<GameCard>,
    pub players: Vec<VisiblePlayer>,
}

/// `VisiblePlayer` as a value of sequences.
pub struct VisiblePlayerView {
    pub alive: bool,
    pub hand_size: nat,
    pub space: Seq<SpaceCard>,
}

/// `VisibleState` as a value of sequences.
pub struct VisibleStateView {
    pub whose_turn: int,
    pub my_hand: Seq<GameCard>,
    pub players: Seq<VisiblePlayerView>,
}

impl View for VisiblePlayer {
    type V = VisiblePlayerView;

    open spec fn view(&self) -> VisiblePlayerView {
        VisiblePlayerView {
            alive: self.alive,
            hand_size: self.hand_size as nat,
            space: self.space@,
        }
    }
}

impl View for VisibleState {
    type V = VisibleStateView;

    open spec fn view(&self) -> VisibleStateView {
        VisibleStateView {
            whose_turn: self.whose_turn.0 as int,
            my_hand: self.my_hand@,
            players: self.players@.map_values(|p: VisiblePlayer| p@),
        }
    }
}

/// What the player at `viewer` sees of `game`.
pub open spec fn projection(game: GameView, viewer: int) -> VisibleStateView {
    VisibleStateView {
        whose_turn: game.whose_turn,
        my_hand: game.players[viewer].hand,
        players: Seq::new(
            game.players.len(),
            |seat: int|
                VisiblePlayerView {
                    alive: game.players[seat].alive,
                    hand_size: game.players[seat].hand.len(),
                    space: game.players[seat].space,
                },
        ),
    }
}

/// What a player sees tells nothing of the cards in the other hands: two
/// games that differ only in which cards the other players hold, not in how
/// many, look the same to the viewer.
pub proof fn lemma_projection_hides_hands(one: GameView, other: GameView, viewer: int)
    requires
        0 <= viewer < one.players.len(),
        one.players.len() == other.players.len(),
        one.whose_turn == other.whose_turn,
        one.players[viewer].hand == other.players[viewer].hand,
        forall|seat: int|
            0 <= seat < one.players.len() ==> {
                &&& (#[trigger] one.players[seat]).alive == other.players[seat].alive
                &&& one.players[seat].space == other.players[seat].space
                &&& one.players[seat].hand.len() == other.players[seat].hand.len()
            },
    ensures
        projection(one, viewer) == projection(other, viewer),
{
    assert(projection(one, viewer).players =~= projection(other, viewer).players);
}

/// A vector with the items of `items`.
pub(crate) fn copy_of<T: Copy>(items: &Vec<T>) -> (copy: Vec<T>)
    ensures
        copy@ == items@,
{
    let mut copy: Vec<T> = Vec::new();
    let mut i: usize = 0;
    while i < items.len()
        invariant
            i <= items@.len(),
            copy@ == items@.take(i as int),
        decreases items@.len() - i,
    {
        copy.push(items[i]);
        i += 1;
        assert(copy@ =~= items@.take(i as int));
    }
    assert(items@.take(i as int) =~= items@);
    copy
}

impl VisibleState {
    /// What the player at `viewer` sees of `game`, or the error for a
    /// reference outside the roster.
    pub fn project(game: &Game, viewer: &PlayerReference) -> (seen: Result<Self, SelfishError>)
        ensures
            viewer.0 >= game.players@.len() ==> seen == Err::<Self, SelfishError>(
                SelfishError::PlayerDoesNotExist(*viewer),
            ),
            viewer.0 < game.players@.len() ==> seen is Ok && seen->Ok_0@ == projection(
                game@,
                viewer.0 as int,
            ),
    {
        if viewer.0 >= game.players.len() {
            return Err(SelfishError::PlayerDoesNotExist(*viewer));
        }
        let mut players: Vec<VisiblePlayer> = Vec::new();
        let mut seat: usize = 0;
        while seat < game.players.len()
            invariant
                seat <= game.players@.len(),
                players@.len() == seat,
                forall|i: int|
                    0 <= i < seat ==> (#[trigger] players@[i])@ == projection(
                        game@,
                        viewer.0 as int,
                    ).players[i],
            decreases game.players@.len() - seat,
        {
            let player = &game.players[seat];
            players.push(
                VisiblePlayer {
                    alive: player.alive,
                    hand_size: player.hand.len(),
                    space: copy_of(&player.space),
                },
            );
            seat += 1;
        }
        let my_hand = copy_of(&game.players[viewer.0].hand);
        let seen = VisibleState { whose_turn: game.whose_turn_reference, my_hand, players };
        assert(seen@.players =~= projection(game@, viewer.0 as int).players);
        Ok(seen)
    }

    /// What the player whose turn it is sees of `game`.
    pub fn try_from_game(game: &Game) -> (seen: Result<Self, SelfishError>)
        ensures
            game.whose_turn_reference.0 >= game.players@.len() ==> seen == Err::<
                Self,
                SelfishError,
            >(SelfishError::PlayerDoesNotExist(game.whose_turn_reference)),
            game.whose_turn_reference.0 < game.players@.len() ==> seen is Ok && seen->Ok_0@
                == projection(game@, game@.whose_turn),
    {
        let viewer = game.whose_turn_reference;
        Self::project(game, &viewer)
    }

    /// A state that shows no game: no players, an empty hand, and a turn
    /// that belongs to nobody at the table.
    pub fn invalid() -> (seen: Self)
        ensures
            seen.whose_turn == PlayerReference(42),
            seen.my_hand@ == Seq::<GameCard>::empty(),
            seen.players@ == Seq::<VisiblePlayer>::empty(),
    {
        VisibleState { whose_turn: PlayerReference(42), my_hand: Vec::new(), players: Vec::new() }
    }
}

} // verus!
