//! What holds of the moves of the game: cards are conserved, the dead stay
//! as they are, the turn goes round the living, and play makes progress.
//!
//! Each move of `state` has a lemma here that says so of that move, named
//! after it. They add up to `lemma_played_on_follows`,
//! `lemma_play_keeps_cards` and `lemma_turns_need_two` for any number of
//! whole turns. The laws of single rules stand beside them:
//! `lemma_self_attack_rejected`, `lemma_shield_defense`,
//! `lemma_siphon_boundary`, `lemma_hyperspace_chains`. The order of turns is
//! the subject of `state::lemma_next_living`. Which moves leave the
//! generator alone, so that the order of its draws is fixed, say the lemmas
//! whose names end in `leaves_generator`.

use crate::actions::{Action, BreatheOrTravel};
use crate::errors::SelfishError;
use crate::game::{Phase, PlayerReference};
use crate::game_cards::{
    count_of, lemma_count_push, lemma_count_remove, lemma_without_first_count, without_first,
    GameCard,
};
use crate::player::PlayerView;
use crate::space_cards::SpaceCard;
use crate::state::{
    alive_weight, hand_cards, hand_weight, in_hands, kind_weight, lemma_next_living,
    lemma_tally_update, living, next_living, GameView, Play,
};
use vstd::prelude::*;

verus! {

/// Replacing one player changes the counts by what the two players differ
/// in.
pub proof fn lemma_replace_player(
    players: Seq<PlayerView>,
    seat: int,
    player: PlayerView,
    card: GameCard,
)
    requires
        0 <= seat < players.len(),
    ensures
        in_hands(players.update(seat, player), card) == in_hands(players, card) - count_of(
            players[seat].hand,
            card,
        ) + count_of(player.hand, card),
        hand_cards(players.update(seat, player)) == hand_cards(players) - players[seat].hand.len()
            + player.hand.len(),
        living(players.update(seat, player)) == living(players) - (if players[seat].alive {
            1int
        } else {
            0int
        }) + (if player.alive {
            1int
        } else {
            0int
        }),
        in_hands(players, card) >= count_of(players[seat].hand, card),
        hand_cards(players) >= players[seat].hand.len(),
{
    lemma_tally_update(players, kind_weight(card), seat, player);
    lemma_tally_update(players, hand_weight(), seat, player);
    lemma_tally_update(players, alive_weight(), seat, player);
}

/// A new hand for one player changes the counts by what the two hands
/// differ in.
pub proof fn lemma_with_hand(s: GameView, seat: int, hand: Seq<GameCard>, card: GameCard)
    requires
        s.seated(seat),
    ensures
        s.with_hand(seat, hand).total(card) == s.total(card) - count_of(
            s.players[seat].hand,
            card,
        ) + count_of(hand, card),
        hand_cards(s.with_hand(seat, hand).players) == hand_cards(s.players)
            - s.players[seat].hand.len() + hand.len(),
        living(s.with_hand(seat, hand).players) == living(s.players),
{
    lemma_replace_player(s.players, seat, PlayerView { hand, ..s.players[seat] }, card);
}

/// A new track for one player changes no count.
pub proof fn lemma_with_space(s: GameView, seat: int, space: Seq<SpaceCard>, card: GameCard)
    requires
        s.seated(seat),
    ensures
        s.with_space(seat, space).total(card) == s.total(card),
        hand_cards(s.with_space(seat, space).players) == hand_cards(s.players),
        living(s.with_space(seat, space).players) == living(s.players),
{
    lemma_replace_player(s.players, seat, PlayerView { space, ..s.players[seat] }, card);
}

/// A discard moves a card from a hand to the discard pile: every kind is
/// conserved, and the hands hold one card less where the card was held.
pub proof fn lemma_spend(s: GameView, seat: int, spent: GameCard, card: GameCard)
    requires
        s.seated(seat),
    ensures
        s.spend(seat, spent).total(card) == s.total(card),
        hand_cards(s.spend(seat, spent).players) == hand_cards(s.players) - (if s.players[seat]
            .hand.contains(spent) {
            1int
        } else {
            0int
        }),
        living(s.spend(seat, spent).players) == living(s.players),
{
    let hand = s.players[seat].hand;
    if hand.contains(spent) {
        lemma_without_first_count(hand, spent, card);
        lemma_with_hand(s, seat, without_first(hand, spent), card);
        lemma_count_push(s.discard, spent, card);
    }
}

/// A death changes no count of cards, and the number of the living by one
/// where the player lived.
pub proof fn lemma_eliminate(s: GameView, seat: int, card: GameCard)
    requires
        s.seated(seat),
    ensures
        s.eliminate(seat).total(card) == s.total(card),
        hand_cards(s.eliminate(seat).players) == hand_cards(s.players),
        living(s.eliminate(seat).players) == living(s.players) - (if s.players[seat].alive {
            1int
        } else {
            0int
        }),
        s.eliminate(seat).players == s.players.update(
            seat,
            PlayerView { alive: false, ..s.players[seat] },
        ),
        s.eliminate(seat).track == s.track,
        s.game_over ==> s.eliminate(seat).game_over,
{
    lemma_replace_player(s.players, seat, PlayerView { alive: false, ..s.players[seat] }, card);
}

/// Every state follows itself.
pub proof fn lemma_follows_itself(s: GameView)
    ensures
        s.follows(s),
        s.conserved(s),
{
}

/// What follows a state that follows another follows that other state too.
pub proof fn lemma_follows_chain(a: GameView, b: GameView, c: GameView)
    requires
        a.follows(b),
        b.follows(c),
    ensures
        a.follows(c),
        a.conserved(b) && b.conserved(c) ==> a.conserved(c),
{
    assert forall|seat: int|
        0 <= seat < a.players.len() && !a.players[seat].alive implies #[trigger] c.players[seat]
        == a.players[seat] by {
        assert(b.players[seat] == a.players[seat]);
    }
    assert forall|card: GameCard|
        #![trigger c.total(card)]
        c.total(card) <= a.total(card) && (card != GameCard::O1 ==> c.total(card) == a.total(
            card,
        )) by {
        assert(b.total(card) <= a.total(card));
    }
    if a.conserved(b) && b.conserved(c) {
        assert forall|card: GameCard| #[trigger] c.total(card) == a.total(card) by {
            assert(b.total(card) == a.total(card));
        }
    }
}

/// What is drawn from the generator changes nothing that the rules count.
pub proof fn lemma_with_rng_follows(s: GameView, rng: rand_chacha::ChaCha8Rng)
    ensures
        s.follows(s.with_rng(rng)),
        s.conserved(s.with_rng(rng)),
        hand_cards(s.with_rng(rng).players) == hand_cards(s.players),
{
    lemma_follows_itself(s);
    assert forall|card: GameCard| #[trigger] s.with_rng(rng).total(card) == s.total(card) by {}
}

/// Whether the turn is in `after` as it is in `before`: with the same
/// player, in the same phase, and that player as alive as before.
pub open spec fn turn_kept(before: GameView, after: GameView) -> bool {
    &&& after.whose_turn == before.whose_turn
    &&& after.phase == before.phase
    &&& after.players.len() == before.players.len()
    &&& after.players[before.whose_turn].alive == before.players[before.whose_turn].alive
}

/// Whether the player whose turn it was in `before` has died on the way to
/// `after` and the turn has passed on.
pub open spec fn turn_lost(before: GameView, after: GameView) -> bool {
    &&& after.players.len() == before.players.len()
    &&& !after.players[before.whose_turn].alive
    &&& after.phase == Phase::Pickup
    &&& after.whose_turn == next_living(after.players, before.whose_turn)
    &&& 0 <= after.whose_turn < after.players.len()
}

/// A living player who discards: the dead stay as they are and every kind of
/// card is conserved.
pub proof fn lemma_spend_follows(s: GameView, seat: int, spent: GameCard)
    requires
        s.lives(seat),
        s.seated(s.whose_turn),
    ensures
        s.follows(s.spend(seat, spent)),
        s.conserved(s.spend(seat, spent)),
        turn_kept(s, s.spend(seat, spent)),
{
    assert forall|card: GameCard| #[trigger]
        s.spend(seat, spent).total(card) == s.total(card) by {
        lemma_spend(s, seat, spent, card);
    }
    lemma_spend(s, seat, spent, spent);
}

/// A death: the dead stay as they are and every kind of card is conserved.
/// The turn passes on where it was the turn of the dead.
pub proof fn lemma_eliminate_follows(s: GameView, seat: int)
    requires
        s.seated(seat),
        s.seated(s.whose_turn),
    ensures
        s.follows(s.eliminate(seat)),
        s.conserved(s.eliminate(seat)),
        seat != s.whose_turn ==> turn_kept(s, s.eliminate(seat)),
        seat == s.whose_turn ==> turn_lost(s, s.eliminate(seat)),
        !s.eliminate(seat).players[seat].alive,
{
    assert forall|card: GameCard| #[trigger]
        s.eliminate(seat).total(card) == s.total(card) by {
        lemma_eliminate(s, seat, card);
    }
    lemma_eliminate(s, seat, GameCard::O1);
    lemma_next_living(s.eliminate(seat).players, s.whose_turn);
}

/// A card that goes from one living player to another: the dead stay as
/// they are and every kind of card is conserved.
pub proof fn lemma_hacked_follows(s: GameView, target: int, card: GameCard)
    requires
        s.lives(target),
        s.lives(s.whose_turn),
        s.players[target].hand.contains(card),
    ensures
        s.follows(s.hacked(target, card)),
        s.conserved(s.hacked(target, card)),
        turn_kept(s, s.hacked(target, card)),
        hand_cards(s.hacked(target, card).players) == hand_cards(s.players),
        s.hacked(target, card).track == s.track,
        target != s.whose_turn ==> s.hacked(target, card).players[s.whose_turn].hand
            == s.players[s.whose_turn].hand.push(card),
{
    let lost = s.lose(target, card);
    let hand = s.players[target].hand;
    assert forall|kind: GameCard| #[trigger]
        s.hacked(target, card).total(kind) == s.total(kind) by {
        lemma_without_first_count(hand, card, kind);
        lemma_with_hand(s, target, without_first(hand, card), kind);
        lemma_count_push(lost.players[s.whose_turn].hand, card, kind);
        lemma_with_hand(lost, s.whose_turn, lost.players[s.whose_turn].hand.push(card), kind);
    }
    lemma_without_first_count(hand, card, card);
    lemma_with_hand(s, target, without_first(hand, card), card);
    lemma_with_hand(lost, s.whose_turn, lost.players[s.whose_turn].hand.push(card), card);
}

/// A card that the generator takes from one living player for another: the
/// dead stay as they are and every kind of card is conserved.
pub proof fn lemma_beamed_follows(s: GameView, target: int, index: int)
    requires
        s.lives(target),
        s.lives(s.whose_turn),
        0 <= index < s.players[target].hand.len(),
    ensures
        s.follows(s.beamed(target, index)),
        s.conserved(s.beamed(target, index)),
        turn_kept(s, s.beamed(target, index)),
        hand_cards(s.beamed(target, index).players) == hand_cards(s.players),
        s.beamed(target, index).track == s.track,
        target != s.whose_turn ==> s.beamed(target, index).players[s.whose_turn].hand
            == s.players[s.whose_turn].hand.push(s.players[target].hand[index]),
{
    let hand = s.players[target].hand;
    let card = hand[index];
    let lost = s.with_hand(target, hand.remove(index));
    assert forall|kind: GameCard| #[trigger]
        s.beamed(target, index).total(kind) == s.total(kind) by {
        lemma_count_remove(hand, index, kind);
        lemma_with_hand(s, target, hand.remove(index), kind);
        lemma_count_push(lost.players[s.whose_turn].hand, card, kind);
        lemma_with_hand(lost, s.whose_turn, lost.players[s.whose_turn].hand.push(card), kind);
    }
    lemma_with_hand(s, target, hand.remove(index), card);
    lemma_with_hand(lost, s.whose_turn, lost.players[s.whose_turn].hand.push(card), card);
}

/// The oxygen siphon on a target who lives or holds no `O1`: the dead stay
/// as they are, and no kind of card changes in number but `O1`, of which
/// one card vanishes where the target held two or more.
pub proof fn lemma_siphoned_follows(s: GameView, target: int)
    requires
        s.seated(target),
        s.lives(target) || !s.players[target].hand.contains(GameCard::O1),
        s.lives(s.whose_turn),
        target != s.whose_turn,
    ensures
        s.follows(s.siphoned(target)),
        turn_kept(s, s.siphoned(target)),
        count_of(s.players[target].hand, GameCard::O1) < 2 ==> s.conserved(s.siphoned(target)),
        count_of(s.players[target].hand, GameCard::O1) >= 2 ==> s.siphoned(target).total(
            GameCard::O1,
        ) == s.total(GameCard::O1) - 1,
        hand_cards(s.siphoned(target).players) <= hand_cards(s.players),
        s.siphoned(target).track == s.track,
        s.siphoned(target).players[s.whose_turn].hand.len() >= s.players[s.whose_turn].hand.len(),
        forall|card: GameCard|
            s.players[s.whose_turn].hand.contains(card) ==> #[trigger] s.siphoned(
                target,
            ).players[s.whose_turn].hand.contains(card),
{
    let actor = s.whose_turn;
    let hand = s.players[target].hand;
    let oxygen = count_of(hand, GameCard::O1);
    let after = s.siphoned(target);
    broadcast use vstd::seq_lib::group_to_multiset_ensures;

    if oxygen == 0 {
        lemma_eliminate_follows(s, target);
        lemma_eliminate(s, target, GameCard::O1);
    } else {
        assert(hand.contains(GameCard::O1));
        let once = s.lose(target, GameCard::O1);
        let hand1 = once.players[target].hand;
        let held = s.players[actor].hand;
        assert forall|card: GameCard| held.contains(card) implies #[trigger] after.players[actor]
            .hand.contains(card) by {
            let i = choose|i: int|
                0 <= i < s.players[actor].hand.len() && s.players[actor].hand[i] == card;
            assert(s.players[actor].hand.push(GameCard::O1)[i] == card);
        }
        if oxygen == 1 {
            let moved = s.hacked(target, GameCard::O1);
            lemma_hacked_follows(s, target, GameCard::O1);
            lemma_eliminate_follows(moved, target);
            lemma_follows_chain(s, moved, moved.eliminate(target));
            assert forall|card: GameCard| #[trigger]
                moved.eliminate(target).total(card) == moved.total(card) by {
                lemma_eliminate(moved, target, card);
            }
            lemma_eliminate(moved, target, GameCard::O1);
        } else {
            lemma_without_first_count(hand, GameCard::O1, GameCard::O1);
            assert(hand1.contains(GameCard::O1));
            let twice = once.lose(target, GameCard::O1);
            assert forall|card: GameCard|
                #![trigger after.total(card)]
                after.total(card) == s.total(card) - if card == GameCard::O1 {
                    1int
                } else {
                    0int
                } by {
                lemma_without_first_count(hand, GameCard::O1, card);
                lemma_with_hand(s, target, without_first(hand, GameCard::O1), card);
                lemma_without_first_count(hand1, GameCard::O1, card);
                lemma_with_hand(once, target, without_first(hand1, GameCard::O1), card);
                lemma_count_push(twice.players[actor].hand, GameCard::O1, card);
                lemma_with_hand(
                    twice,
                    actor,
                    twice.players[actor].hand.push(GameCard::O1),
                    card,
                );
            }
            lemma_without_first_count(hand1, GameCard::O1, GameCard::O1);
            lemma_with_hand(s, target, without_first(hand, GameCard::O1), GameCard::O1);
            lemma_with_hand(once, target, without_first(hand1, GameCard::O1), GameCard::O1);
            lemma_with_hand(
                twice,
                actor,
                twice.players[actor].hand.push(GameCard::O1),
                GameCard::O1,
            );
        }
    }
}

/// A track that changes for a living player: the dead stay as they are and
/// every kind of card is conserved.
pub proof fn lemma_with_space_follows(s: GameView, seat: int, space: Seq<SpaceCard>)
    requires
        s.lives(seat),
        s.seated(s.whose_turn),
    ensures
        s.follows(s.with_space(seat, space)),
        s.conserved(s.with_space(seat, space)),
        turn_kept(s, s.with_space(seat, space)),
        hand_cards(s.with_space(seat, space).players) == hand_cards(s.players),
{
    assert forall|card: GameCard| #[trigger]
        s.with_space(seat, space).total(card) == s.total(card) by {
        lemma_with_space(s, seat, space, card);
    }
    lemma_with_space(s, seat, space, GameCard::O1);
}

/// The end of an action by a player who was alive when it began: the dead
/// stay as they are and every kind of card is conserved.
pub proof fn lemma_played_follows(s: GameView, actor: int, card: GameCard)
    requires
        s.seated(actor),
        s.seated(s.whose_turn),
    ensures
        s.follows(s.played(actor, card).0),
        s.conserved(s.played(actor, card).0),
        turn_kept(s, s.played(actor, card).0),
        s.played(actor, card).0.track == s.track,
        s.played(actor, card).1 is Ok && s.players[actor].alive ==> hand_cards(
            s.played(actor, card).0.players,
        ) == hand_cards(s.players) - 1,
        s.players[actor].alive && s.players[actor].hand.contains(card) ==> s.played(
            actor,
            card,
        ).1 is Ok,
        s.played(actor, card).1 is Err ==> s.played(actor, card).0 == s,
{
    lemma_follows_itself(s);
    if s.players[actor].alive && s.players[actor].hand.contains(card) {
        lemma_spend_follows(s, actor, card);
        lemma_spend(s, actor, card, card);
    }
}

/// A draw by a living player: the dead stay as they are, every kind of card
/// is conserved, and the hands hold at most one card more.
pub proof fn lemma_drew_follows(s: GameView, after: GameView, card: Option<GameCard>)
    requires
        s.lives(s.whose_turn),
        s.drew(after, card),
    ensures
        s.follows(after),
        s.conserved(after),
        turn_kept(s, after),
        after.track == s.track,
        hand_cards(after.players) <= hand_cards(s.players) + 1,
        card is Some <==> s.available.len() + s.discard.len() > 0,
{
    broadcast use vstd::seq_lib::group_to_multiset_ensures;

    let seat = s.whose_turn;
    if s.available.len() > 0 {
        let top = s.available.last();
        let less = GameView { available: s.available.drop_last(), ..s };
        assert(s.available =~= s.available.drop_last().push(top));
        assert forall|kind: GameCard| #[trigger] after.total(kind) == s.total(kind) by {
            lemma_count_push(s.available.drop_last(), top, kind);
            lemma_count_push(s.players[seat].hand, top, kind);
            lemma_with_hand(less, seat, s.players[seat].hand.push(top), kind);
        }
        lemma_with_hand(less, seat, s.players[seat].hand.push(top), top);
    } else if s.discard.len() > 0 {
        let top = card->0;
        let turned = GameView { available: after.available, discard: Seq::empty(), ..s };
        assert(s.available =~= Seq::<GameCard>::empty());
        assert forall|kind: GameCard| #[trigger] after.total(kind) == s.total(kind) by {
            lemma_count_push(after.available, top, kind);
            lemma_count_push(s.players[seat].hand, top, kind);
            lemma_with_hand(turned, seat, s.players[seat].hand.push(top), kind);
            assert(!Seq::<GameCard>::empty().contains(kind));
        }
        lemma_with_hand(turned, seat, s.players[seat].hand.push(top), top);
    } else {
        lemma_follows_itself(s);
    }
}

/// A run of discards by a living player: the dead stay as they are and
/// every kind of card is conserved, however far the run gets.
pub proof fn lemma_shed_follows(s: GameView, cards: Seq<GameCard>)
    requires
        s.lives(s.whose_turn),
    ensures
        s.follows(s.shed(cards).0),
        s.conserved(s.shed(cards).0),
        turn_kept(s, s.shed(cards).0),
        s.shed(cards).0.track == s.track,
        hand_cards(s.shed(cards).0.players) <= hand_cards(s.players),
        s.shed(cards).1 is Ok ==> hand_cards(s.shed(cards).0.players) == hand_cards(s.players)
            - cards.len(),
    decreases cards.len(),
{
    let seat = s.whose_turn;
    lemma_follows_itself(s);
    if cards.len() > 0 && s.players[seat].hand.contains(cards[0]) {
        let next = s.spend(seat, cards[0]);
        lemma_spend_follows(s, seat, cards[0]);
        lemma_spend(s, seat, cards[0], cards[0]);
        lemma_shed_follows(next, cards.drop_first());
        lemma_follows_chain(s, next, next.shed(cards.drop_first()).0);
    }
}

/// An exchange of tracks between the traveller and a player named by the
/// agent: the dead stay as they are and every kind of card is conserved.
pub proof fn lemma_worm_hole_follows(s: GameView, other: PlayerReference)
    requires
        s.lives(s.whose_turn),
    ensures
        s.follows(s.worm_hole(other).0),
        s.conserved(s.worm_hole(other).0),
        turn_kept(s, s.worm_hole(other).0),
        s.worm_hole(other).0.track == s.track,
        hand_cards(s.worm_hole(other).0.players) == hand_cards(s.players),
{
    lemma_follows_itself(s);
    if s.lives(other.0 as int) {
        let a = s.whose_turn;
        let b = other.0 as int;
        let half = s.with_space(a, s.players[b].space);
        lemma_with_space_follows(s, a, s.players[b].space);
        lemma_with_space_follows(half, b, s.players[a].space);
        lemma_follows_chain(s, half, half.with_space(b, s.players[a].space));
    }
}

/// The player whose turn it is discards or dies: the dead stay as they are
/// and every kind of card is conserved. The turn passes on where they die.
pub proof fn lemma_discard_or_die_follows(s: GameView, card: GameCard)
    requires
        s.lives(s.whose_turn),
    ensures
        s.follows(s.discard_or_die(card)),
        s.conserved(s.discard_or_die(card)),
        s.discard_or_die(card).track == s.track,
        hand_cards(s.discard_or_die(card).players) <= hand_cards(s.players),
        s.players[s.whose_turn].hand.contains(card) ==> turn_kept(s, s.discard_or_die(card)),
        !s.players[s.whose_turn].hand.contains(card) ==> turn_lost(s, s.discard_or_die(card)),
{
    if s.players[s.whose_turn].hand.contains(card) {
        lemma_spend_follows(s, s.whose_turn, card);
        lemma_spend(s, s.whose_turn, card, card);
    } else {
        lemma_eliminate_follows(s, s.whose_turn);
        lemma_eliminate(s, s.whose_turn, card);
    }
}

/// The latest card leaves the track of a player who lives or has not
/// moved: the dead stay as they are and every kind of card is conserved.
pub proof fn lemma_blasted_follows(s: GameView, target: int)
    requires
        s.seated(target),
        s.lives(target) || s.players[target].space.len() == 0,
        s.seated(s.whose_turn),
    ensures
        s.follows(s.blasted(target)),
        s.conserved(s.blasted(target)),
        turn_kept(s, s.blasted(target)),
        s.blasted(target).track == s.track,
        hand_cards(s.blasted(target).players) == hand_cards(s.players),
        forall|seat: int|
            0 <= seat < s.players.len() ==> (#[trigger] s.blasted(target).players[seat]).hand
                == s.players[seat].hand,
{
    lemma_follows_itself(s);
    if s.players[target].space.len() > 0 {
        lemma_with_space_follows(s, target, s.players[target].space.drop_last());
    }
}

/// Landing on a space card: the dead stay as they are and every kind of
/// card is conserved. The traveller keeps the turn unless they die, and an
/// error leaves them alive.
pub proof fn lemma_landed_follows(
    s: GameView,
    card: SpaceCard,
    after: GameView,
    result: Result<(), SelfishError>,
)
    requires
        s.lives(s.whose_turn),
        s.landed(card, after, result),
    ensures
        s.follows(after),
        s.conserved(after),
        after.track == s.track,
        turn_kept(s, after) || (turn_lost(s, after) && result is Ok),
{
    let traveller = s.whose_turn;
    lemma_follows_itself(s);
    match card {
        SpaceCard::BlankSpace | SpaceCard::SolarFlare | SpaceCard::Hyperspace => {},
        SpaceCard::UsefulJunk => {
            let drawn = choose|drawn: Option<GameCard>| s.drew(after, drawn);
            lemma_drew_follows(s, after, drawn);
        },
        SpaceCard::MysteriousNebula => {
            let (between, first, second) = choose|
                between: GameView,
                first: Option<GameCard>,
                second: Option<GameCard>,
            | #[trigger] s.drew(between, first) && #[trigger] between.drew(after, second);
            lemma_drew_follows(s, between, first);
            lemma_drew_follows(between, after, second);
            lemma_follows_chain(s, between, after);
        },
        SpaceCard::Meteoroid => {
            if s.players[traveller].hand.len() > 6 {
                let cards = choose|cards: Seq<GameCard>|
                    (after, result) == #[trigger] s.forced_discard(2, cards);
                lemma_shed_follows(s, cards);
            }
        },
        SpaceCard::CosmicRadiation => {
            lemma_discard_or_die_follows(s, GameCard::O1);
        },
        SpaceCard::AsteroidField => {
            let once = s.discard_or_die(GameCard::O1);
            lemma_discard_or_die_follows(s, GameCard::O1);
            if once.players[traveller].alive {
                lemma_discard_or_die_follows(once, GameCard::O1);
                lemma_follows_chain(s, once, once.discard_or_die(GameCard::O1));
            }
        },
        SpaceCard::GravitationalAnomaly => {
            lemma_blasted_follows(s, traveller);
        },
        SpaceCard::WormHole => {
            let other = choose|other: PlayerReference|
                (after, result) == #[trigger] s.worm_hole(other);
            lemma_worm_hole_follows(s, other);
        },
    }
}

/// A traveller who draws space cards: the dead stay as they are and every
/// kind of card is conserved.
pub proof fn lemma_advanced_follows(s: GameView, drawn: int)
    requires
        s.lives(s.whose_turn),
        0 <= drawn <= s.track.len(),
    ensures
        s.follows(s.advanced(drawn)),
        s.conserved(s.advanced(drawn)),
        turn_kept(s, s.advanced(drawn)),
        s.advanced(drawn).track.len() == s.track.len() - drawn,
        hand_cards(s.advanced(drawn).players) == hand_cards(s.players),
        drawn == 0 ==> s.advanced(drawn) == s,
        forall|seat: int|
            0 <= seat < s.players.len() ==> (#[trigger] s.advanced(drawn).players[seat]).hand
                == s.players[seat].hand,
{
    let seat = s.whose_turn;
    let less = GameView { track: s.track.skip(drawn), ..s };
    let space = s.players[seat].space + s.track.take(drawn);
    lemma_follows_itself(less);
    assert(s.follows(less));
    assert(s.conserved(less));
    lemma_with_space_follows(less, seat, space);
    lemma_follows_chain(s, less, less.with_space(seat, space));
    if drawn == 0 {
        assert(s.track.skip(0) =~= s.track);
        assert(space =~= s.players[seat].space);
        assert(s.advanced(0).players =~= s.players);
    }
}

/// Travel: the dead stay as they are and every kind of card is conserved.
/// The traveller keeps the turn unless they die, and an error leaves them
/// alive. Space cards are drawn as long as the track deck holds any.
pub proof fn lemma_travelled_follows(
    s: GameView,
    after: GameView,
    result: Result<(), SelfishError>,
)
    requires
        s.lives(s.whose_turn),
        s.travelled(after, result),
    ensures
        s.follows(after),
        s.conserved(after),
        turn_kept(s, after) || (turn_lost(s, after) && result is Ok),
        s.track.len() > 0 ==> after.track.len() < s.track.len(),
        s.track.len() == 0 ==> after == s && result is Ok,
{
    let jumps = crate::state::hyperspace_run(s.track);
    crate::state::lemma_hyperspace_run_bound(s.track);
    if jumps == s.track.len() {
        lemma_advanced_follows(s, jumps as int);
    } else {
        let mid = s.advanced(jumps as int + 1);
        lemma_advanced_follows(s, jumps as int + 1);
        lemma_landed_follows(mid, s.track[jumps as int], after, result);
        lemma_follows_chain(s, mid, after);
    }
}

/// Whether play has come closer to its end on the way from `before` to
/// `after`: the track deck has shrunk, or it is as it was and the hands
/// hold fewer cards.
pub open spec fn progress(before: GameView, after: GameView) -> bool {
    after.track.len() < before.track.len() || (after.track.len() == before.track.len()
        && hand_cards(after.players) < hand_cards(before.players))
}

/// Whether `action` is an oxygen siphon against a target with two or more
/// `O1`: the one move of the game in which a card vanishes.
pub open spec fn siphon_tax_due(s: GameView, action: Action) -> bool {
    action is OxygenSiphon && count_of(s.players[action.target_seat()].hand, GameCard::O1) >= 2
}

/// An action that the target does not defend against: the dead stay as they
/// are, the actor keeps the turn unless they die, a success brings play
/// closer to its end, and every kind of card is conserved unless the
/// siphon's tax is due, which costs one `O1`.
pub proof fn lemma_struck_follows(
    s: GameView,
    action: Action,
    after: GameView,
    result: Result<(), SelfishError>,
)
    requires
        s.lives(s.whose_turn),
        s.refusal(action) is None,
        s.struck(action, after, result),
    ensures
        s.follows(after),
        turn_kept(s, after) || (turn_lost(s, after) && result is Ok),
        result is Ok ==> progress(s, after),
        !siphon_tax_due(s, action) ==> s.conserved(after),
        siphon_tax_due(s, action) ==> after.total(GameCard::O1) == s.total(GameCard::O1) - 1,
{
    let actor = s.whose_turn;
    let card = action.spec_card();
    let held = s.players[actor].hand;
    assert(held.contains(card));
    let at = choose|i: int| 0 <= i < held.len() && held[i] == card;
    match action {
        Action::OxygenSiphon { target } => {
            let hit = s.siphoned(target.0 as int);
            lemma_siphoned_follows(s, target.0 as int);
            assert(hit.players[actor].hand.contains(card));
            lemma_played_follows(hit, actor, card);
            lemma_follows_chain(s, hit, after);
            if siphon_tax_due(s, action) {
                assert(after.total(GameCard::O1) == hit.total(GameCard::O1));
            }
        },
        Action::HackSuit { target } => {
            let choice = choose|choice: GameCard|
                (after, result) == #[trigger] s.hack_suit(target, choice);
            lemma_follows_itself(s);
            if s.players[target.0 as int].hand.contains(choice) {
                let hit = s.hacked(target.0 as int, choice);
                lemma_hacked_follows(s, target.0 as int, choice);
                assert(hit.players[actor].hand[at] == card);
                lemma_played_follows(hit, actor, card);
                lemma_follows_chain(s, hit, after);
            }
        },
        Action::TractorBeam { target } => {
            let index = choose|index: int|
                0 <= index < s.players[target.0 as int].hand.len() && (after, result)
                    == #[trigger] s.beamed(target.0 as int, index).with_rng(after.rng).played(
                    actor,
                    card,
                );
            let taken = s.beamed(target.0 as int, index);
            let hit = taken.with_rng(after.rng);
            lemma_beamed_follows(s, target.0 as int, index);
            lemma_with_rng_follows(taken, after.rng);
            lemma_follows_chain(s, taken, hit);
            assert(hit.players[actor].hand[at] == card);
            lemma_played_follows(hit, actor, card);
            lemma_follows_chain(s, hit, after);
        },
        Action::RocketBooster => {
            let (landing, travel) = choose|landing: GameView, travel: Result<(), SelfishError>|
                #[trigger] s.travelled(landing, travel) && (after, result) == if travel is Ok {
                    landing.played(actor, card)
                } else {
                    (landing, travel)
                };
            lemma_travelled_follows(s, landing, travel);
            if travel is Ok {
                lemma_played_follows(landing, actor, card);
                lemma_follows_chain(s, landing, after);
            }
        },
        Action::LaserBlast { target } => {
            let hit = s.blasted(target.0 as int);
            lemma_blasted_follows(s, target.0 as int);
            lemma_played_follows(hit, actor, card);
            lemma_follows_chain(s, hit, after);
        },
        Action::HoleInSuit { .. } | Action::Tether { .. } => {
            lemma_played_follows(s, actor, card);
        },
    }
}

/// Shield defense. Where the target of an admitted action defends, the
/// action has no effect of its own: the target spends one shield, the actor
/// spends the action's card, both cards lie on the discard pile, and
/// nothing else is changed.
pub proof fn lemma_shield_defense(
    s: GameView,
    action: Action,
    after: GameView,
    result: Result<(), SelfishError>,
)
    requires
        s.lives(s.whose_turn),
        s.refusal(action) is None,
        action.spec_attacking() is Some,
        s.may_defend(action.target_seat()),
        s.answered(action, true, after, result),
    ensures
        result is Ok,
        after == s.spend(action.target_seat(), GameCard::Shield).spend(
            s.whose_turn,
            action.spec_card(),
        ),
        after.players[action.target_seat()].hand == without_first(
            s.players[action.target_seat()].hand,
            GameCard::Shield,
        ),
        after.players[s.whose_turn].hand == without_first(
            s.players[s.whose_turn].hand,
            action.spec_card(),
        ),
        after.discard == s.discard.push(GameCard::Shield).push(action.spec_card()),
        forall|seat: int|
            0 <= seat < s.players.len() && seat != s.whose_turn && seat != action.target_seat()
                ==> #[trigger] after.players[seat] == s.players[seat],
        forall|seat: int|
            0 <= seat < s.players.len() ==> (#[trigger] after.players[seat]).alive
                == s.players[seat].alive && after.players[seat].space == s.players[seat].space,
        after.available == s.available,
        after.track == s.track,
        after.whose_turn == s.whose_turn,
        after.phase == s.phase,
        after.game_over == s.game_over,
        after.rng == s.rng,
        s.follows(after),
        s.conserved(after),
        progress(s, after),
{
    let actor = s.whose_turn;
    let target = action.target_seat();
    let card = action.spec_card();
    let hit = s.shielded(target);
    lemma_spend_follows(s, target, GameCard::Shield);
    lemma_spend(s, target, GameCard::Shield, card);
    lemma_played_follows(hit, actor, card);
    lemma_follows_chain(s, hit, after);
}

/// Self-attack rejection. An action aimed at the player whose turn it is
/// fails with the error for that and changes nothing.
pub proof fn lemma_self_attack_rejected(
    s: GameView,
    action: Action,
    after: GameView,
    result: Result<(), SelfishError>,
)
    requires
        action.spec_attacking() is Some,
        action.target_seat() == s.whose_turn,
        s.resolved(action, after, result),
    ensures
        result == Err::<(), SelfishError>(SelfishError::CantAttackYourself),
        after == s,
{
}

/// The oxygen siphon at its boundaries. A target with no `O1` dies and the
/// actor gains nothing. A target with one `O1` dies without it and the
/// actor holds one `O1` more.
pub proof fn lemma_siphon_boundary(s: GameView, target: int)
    requires
        s.seated(s.whose_turn),
        s.seated(target),
        target != s.whose_turn,
        count_of(s.players[target].hand, GameCard::O1) <= 1,
    ensures
        !s.siphoned(target).players[target].alive,
        count_of(s.players[target].hand, GameCard::O1) == 0 ==> {
            &&& s.siphoned(target).players[s.whose_turn] == s.players[s.whose_turn]
            &&& s.siphoned(target).players[target].hand == s.players[target].hand
        },
        count_of(s.players[target].hand, GameCard::O1) == 1 ==> {
            &&& s.siphoned(target).players[s.whose_turn].hand == s.players[s.whose_turn].hand.push(
                GameCard::O1,
            )
            &&& s.siphoned(target).players[target].hand == without_first(
                s.players[target].hand,
                GameCard::O1,
            )
            &&& count_of(s.siphoned(target).players[target].hand, GameCard::O1) == 0
            &&& count_of(s.siphoned(target).players[s.whose_turn].hand, GameCard::O1) == count_of(
                s.players[s.whose_turn].hand,
                GameCard::O1,
            ) + 1
        },
{
    broadcast use vstd::seq_lib::group_to_multiset_ensures;

    if count_of(s.players[target].hand, GameCard::O1) == 1 {
        lemma_without_first_count(s.players[target].hand, GameCard::O1, GameCard::O1);
        lemma_count_push(s.players[s.whose_turn].hand, GameCard::O1, GameCard::O1);
    }
}

/// Playing an action: the dead stay as they are, the actor keeps the turn
/// unless they die, a success brings play closer to its end, and every kind
/// of card is conserved unless the siphon's tax is due.
pub proof fn lemma_resolved_follows(
    s: GameView,
    action: Action,
    after: GameView,
    result: Result<(), SelfishError>,
)
    requires
        s.lives(s.whose_turn),
        s.resolved(action, after, result),
    ensures
        s.follows(after),
        turn_kept(s, after) || (turn_lost(s, after) && result is Ok),
        result is Ok ==> progress(s, after),
        !siphon_tax_due(s, action) ==> s.conserved(after),
{
    lemma_follows_itself(s);
    if s.refusal(action) is None {
        if s.answered(action, false, after, result) {
            lemma_struck_follows(s, action, after, result);
        } else {
            lemma_shield_defense(s, action, after, result);
        }
    }
}

/// Closing a turn: the dead stay as they are, every kind of card is
/// conserved, and the turn passes to the next living player, who starts by
/// picking up.
pub proof fn lemma_turn_closed_follows(
    s: GameView,
    after: GameView,
    result: Result<(), SelfishError>,
)
    requires
        s.lives(s.whose_turn),
        s.turn_closed(after, result),
    ensures
        s.follows(after),
        s.conserved(after),
        after.phase == Phase::Pickup,
        after.whose_turn == next_living(after.players, s.whose_turn),
        0 <= after.whose_turn < after.players.len(),
        after.players.len() == s.players.len(),
{
    let player = s.whose_turn;
    let start = GameView { phase: Phase::BreatheOrTravel, ..s };
    lemma_follows_itself(start);
    assert(s.follows(start) && s.conserved(start));
    let has_o1 = s.players[player].hand.contains(GameCard::O1);
    let has_o2 = s.players[player].hand.contains(GameCard::O2);
    if !has_o1 && !has_o2 {
        lemma_eliminate_follows(start, player);
    } else if has_o1 && start.oxygen_spent(BreatheOrTravel::Breathe, after, result) {
        let spent = start.spend(player, GameCard::O1);
        lemma_spend_follows(start, player, GameCard::O1);
        lemma_next_living(spent.players, player);
        lemma_follows_itself(after);
        assert(spent.follows(after) && spent.conserved(after));
        lemma_follows_chain(start, spent, after);
    } else {
        let spent = start.spend(player, GameCard::O2);
        lemma_spend_follows(start, player, GameCard::O2);
        let landing = choose|landing: GameView| #[trigger]
            spent.travelled(landing, result) && after == landing.turn_over(player);
        lemma_travelled_follows(spent, landing, result);
        lemma_next_living(landing.players, player);
        lemma_follows_itself(after);
        assert(landing.follows(after) && landing.conserved(after));
        lemma_follows_chain(start, spent, landing);
        lemma_follows_chain(start, landing, after);
    }
    lemma_follows_chain(s, start, after);
}

/// Where the turn stays with a dead player, nobody lives.
pub proof fn lemma_nobody_lives(players: Seq<PlayerView>, turn: int)
    requires
        0 <= turn < players.len(),
        !players[turn].alive,
        !players[next_living(players, turn)].alive,
    ensures
        living(players) == 0,
{
    lemma_next_living(players, turn);
    assert forall|seat: int| 0 <= seat < players.len() implies !players[seat].alive by {
        if players[seat].alive {
            assert(seat != turn);
        }
    }
    lemma_none_alive(players);
}

/// A table of dead players counts no living one.
pub proof fn lemma_none_alive(players: Seq<PlayerView>)
    requires
        forall|seat: int| 0 <= seat < players.len() ==> !players[seat].alive,
    ensures
        living(players) == 0,
    decreases players.len(),
{
    if players.len() > 0 {
        let front = players.drop_last();
        assert forall|seat: int| 0 <= seat < front.len() implies !front[seat].alive by {
            assert(front[seat] == players[seat]);
        }
        lemma_none_alive(front);
    }
}

/// Conservation. A state that holds the cards the deck started with leads
/// only to such states, as long as every kind of card is conserved on the
/// way: in a draw, in travel, in closing a turn, and in every action but
/// an oxygen siphon whose tax is due.
pub proof fn lemma_conservation(s: GameView, after: GameView)
    requires
        s.intact(),
        s.conserved(after),
    ensures
        after.intact(),
{
    assert forall|card: GameCard| #[trigger]
        after.total(card) == crate::game_cards::copies(card) by {
        assert(after.total(card) == s.total(card));
    }
}

/// Hyperspace chaining. A traveller whose first space card is a hyperspace
/// jump draws again if the track deck holds another card: at least two
/// cards leave the deck and join the track, the jump first, before the last
/// of them takes effect.
pub proof fn lemma_hyperspace_chains(
    s: GameView,
    after: GameView,
    result: Result<(), SelfishError>,
)
    requires
        s.lives(s.whose_turn),
        s.track.len() >= 2,
        s.track[0] == SpaceCard::Hyperspace,
        s.travelled(after, result),
    ensures
        after.track.len() <= s.track.len() - 2,
        exists|drawn: int|
            {
                &&& 2 <= drawn <= s.track.len()
                &&& #[trigger] s.advanced(drawn).players[s.whose_turn].space
                    == s.players[s.whose_turn].space + s.track.take(drawn)
                &&& s.advanced(drawn).track == s.track.skip(drawn)
                &&& after == s.advanced(drawn) || s.advanced(drawn).landed(
                    s.track[drawn - 1],
                    after,
                    result,
                )
            },
{
    let jumps = crate::state::hyperspace_run(s.track);
    crate::state::lemma_hyperspace_run_bound(s.track);
    crate::state::lemma_hyperspace_run_bound(s.track.drop_first());
    assert(jumps >= 1);
    if jumps == s.track.len() {
        lemma_advanced_follows(s, jumps as int);
        assert(s.advanced(jumps as int).players[s.whose_turn].space == s.players[s.whose_turn].space
            + s.track.take(jumps as int));
    } else {
        let drawn = jumps as int + 1;
        lemma_advanced_follows(s, drawn);
        lemma_landed_follows(s.advanced(drawn), s.track[jumps as int], after, result);
        assert(s.advanced(drawn).players[s.whose_turn].space == s.players[s.whose_turn].space
            + s.track.take(drawn));
    }
}

/// Hyperspace chaining, seen on the track of the traveller. Where the
/// traveller lands on a card other than a gravitational anomaly, which takes
/// the last entry back, and a worm hole, which exchanges the whole track,
/// their track is longer by two entries or more, and the first new entry is
/// the jump.
pub proof fn lemma_hyperspace_lengthens_track(
    s: GameView,
    after: GameView,
    result: Result<(), SelfishError>,
)
    requires
        s.lives(s.whose_turn),
        s.track.len() >= 2,
        s.track[0] == SpaceCard::Hyperspace,
        s.travelled(after, result),
        crate::state::hyperspace_run(s.track) < s.track.len() ==> {
            let landing = s.track[crate::state::hyperspace_run(s.track) as int];
            landing != SpaceCard::GravitationalAnomaly && landing != SpaceCard::WormHole
        },
    ensures
        after.players[s.whose_turn].space.len() >= s.players[s.whose_turn].space.len() + 2,
        after.players[s.whose_turn].space[s.players[s.whose_turn].space.len() as int]
            == SpaceCard::Hyperspace,
{
    let traveller = s.whose_turn;
    let jumps = crate::state::hyperspace_run(s.track);
    crate::state::lemma_hyperspace_run_bound(s.track);
    crate::state::lemma_hyperspace_run_bound(s.track.drop_first());
    assert(jumps >= 1);
    if jumps < s.track.len() {
        let mid = s.advanced(jumps as int + 1);
        lemma_advanced_follows(s, jumps as int + 1);
        lemma_landed_keeps_track(mid, s.track[jumps as int], after, result);
    }
}

/// Landing on a card other than a gravitational anomaly and a worm hole
/// leaves the track of the traveller as it is.
pub proof fn lemma_landed_keeps_track(
    s: GameView,
    card: SpaceCard,
    after: GameView,
    result: Result<(), SelfishError>,
)
    requires
        s.lives(s.whose_turn),
        s.landed(card, after, result),
        card != SpaceCard::GravitationalAnomaly,
        card != SpaceCard::WormHole,
    ensures
        after.players.len() == s.players.len(),
        after.players[s.whose_turn].space == s.players[s.whose_turn].space,
{
    let traveller = s.whose_turn;
    match card {
        SpaceCard::UsefulJunk => {
            let drawn = choose|drawn: Option<GameCard>| s.drew(after, drawn);
        },
        SpaceCard::MysteriousNebula => {
            let (between, first, second) = choose|
                between: GameView,
                first: Option<GameCard>,
                second: Option<GameCard>,
            | #[trigger] s.drew(between, first) && #[trigger] between.drew(after, second);
        },
        SpaceCard::Meteoroid => {
            if s.players[traveller].hand.len() > 6 {
                let cards = choose|cards: Seq<GameCard>|
                    (after, result) == #[trigger] s.forced_discard(2, cards);
                lemma_shed_keeps_track(s, cards);
            }
        },
        _ => {},
    }
}

/// A run of discards leaves every track and the generator as they are.
pub proof fn lemma_shed_keeps_track(s: GameView, cards: Seq<GameCard>)
    requires
        s.seated(s.whose_turn),
    ensures
        s.shed(cards).0.players.len() == s.players.len(),
        s.shed(cards).0.whose_turn == s.whose_turn,
        s.shed(cards).0.rng == s.rng,
        forall|seat: int|
            0 <= seat < s.players.len() ==> (#[trigger] s.shed(cards).0.players[seat]).space
                == s.players[seat].space,
    decreases cards.len(),
{
    if cards.len() > 0 && s.players[s.whose_turn].hand.contains(cards[0]) {
        lemma_shed_keeps_track(s.spend(s.whose_turn, cards[0]), cards.drop_first());
    }
}

/// The actions of a turn: the dead stay as they are, no card appears and
/// only `O1` can vanish, and the actor keeps the turn unless the last
/// action kills them.
pub proof fn lemma_acted_follows(start: GameView, plays: Seq<Play>)
    requires
        start.lives(start.whose_turn),
        start.acted(plays),
    ensures
        start.follows(start.after_plays(plays)),
        turn_kept(start, start.after_plays(plays)) || turn_lost(start, start.after_plays(plays)),
    decreases plays.len(),
{
    lemma_follows_itself(start);
    if plays.len() > 0 {
        let earlier = plays.drop_last();
        let before = start.after_plays(earlier);
        lemma_acted_follows(start, earlier);
        let play = plays.last();
        lemma_resolved_follows(before, play.action, play.after, play.result);
        lemma_follows_chain(start, before, plays.last().after);
    }
}

/// A whole turn of a living player: the dead stay as they are, no card
/// appears and only `O1` can vanish, and afterwards the turn is that of the
/// next living player, who starts by picking up.
pub proof fn lemma_turn_taken_follows(
    s: GameView,
    after: GameView,
    result: Result<(), SelfishError>,
)
    requires
        s.lives(s.whose_turn),
        s.turn_taken(after, result),
    ensures
        s.follows(after),
        after.phase == Phase::Pickup,
        after.whose_turn == next_living(after.players, s.whose_turn),
        0 <= after.whose_turn < after.players.len(),
{
    let (card, start, plays) = choose|card: Option<GameCard>, start: GameView, plays: Seq<Play>|
        {
            &&& #[trigger] s.picked_up(start, card)
            &&& #[trigger] start.acted(plays)
            &&& if start.after_plays(plays).players[s.whose_turn].alive {
                start.after_plays(plays).turn_closed(after, result)
            } else {
                after == start.after_plays(plays) && plays.len() > 0 && result
                    == plays.last().result
            }
        };
    let drawn = GameView { phase: s.phase, ..start };
    lemma_drew_follows(s, drawn, card);
    assert forall|kind: GameCard| #[trigger] start.total(kind) == drawn.total(kind) by {}
    assert(drawn.follows(start));
    lemma_follows_chain(s, drawn, start);
    lemma_acted_follows(start, plays);
    let acted = start.after_plays(plays);
    lemma_follows_chain(s, start, acted);
    if acted.players[s.whose_turn].alive {
        lemma_turn_closed_follows(acted, after, result);
        lemma_follows_chain(s, acted, after);
    }
}

/// Whole turns, one after the other: the dead stay as they are, no card
/// appears and only `O1` can vanish, and every turn ends with the next
/// player about to pick up.
pub proof fn lemma_played_on_follows(s: GameView, turns: Seq<GameView>)
    requires
        s.seated(s.whose_turn),
        s.phase == Phase::Pickup,
        s.played_on(turns),
    ensures
        s.follows(s.after_turns(turns)),
        s.after_turns(turns).phase == Phase::Pickup,
        s.after_turns(turns).seated(s.after_turns(turns).whose_turn),
    decreases turns.len(),
{
    lemma_follows_itself(s);
    if turns.len() > 0 {
        let earlier = turns.drop_last();
        let ended = s.after_turns(earlier);
        let before = ended.ready();
        lemma_played_on_follows(s, earlier);
        lemma_follows_itself(ended);
        assert forall|kind: GameCard| #[trigger] before.total(kind) == ended.total(kind) by {}
        assert(ended.follows(before));
        let result = choose|result: Result<(), SelfishError>|
            before.turn_taken(turns.last(), result);
        lemma_turn_taken_follows(before, turns.last(), result);
        lemma_follows_chain(s, ended, before);
        lemma_follows_chain(s, before, turns.last());
    }
}

/// Conservation over a whole game. Play that starts with the cards of the
/// deck keeps them: after any number of turns the hands and the two piles
/// hold of every kind as many cards as the deck started with, but for `O1`,
/// of which the siphon's tax may have taken some.
pub proof fn lemma_play_keeps_cards(s: GameView, turns: Seq<GameView>, card: GameCard)
    requires
        s.seated(s.whose_turn),
        s.phase == Phase::Pickup,
        s.intact(),
        s.played_on(turns),
    ensures
        s.after_turns(turns).total(card) <= crate::game_cards::copies(card),
        card != GameCard::O1 ==> s.after_turns(turns).total(card) == crate::game_cards::copies(
            card,
        ),
{
    lemma_played_on_follows(s, turns);
    assert(s.after_turns(turns).total(card) <= s.total(card));
}

/// The end of the game. In a game of two players or more, the game is over
/// as soon as fewer than two of them live: every whole turn begins with two
/// living players or more, and after any number of turns the game is over
/// or two players still live. A game that is over has one living player at
/// most: the one who was left may die in the turn in which they won.
pub proof fn lemma_turns_need_two(s: GameView, turns: Seq<GameView>)
    requires
        s.seated(s.whose_turn),
        s.phase == Phase::Pickup,
        s.settled(),
        s.played_on(turns),
    ensures
        s.after_turns(turns).settled(),
        turns.len() > 0 ==> living(s.after_turns(turns.drop_last()).ready().players) >= 2,
        s.decided() && s.after_turns(turns).game_over ==> living(s.after_turns(turns).players)
            <= 1,
{
    lemma_played_on_follows(s, turns);
    if turns.len() > 0 {
        lemma_played_on_follows(s, turns.drop_last());
    }
}

/// The draws on the generator, in landing. Only a card that makes the
/// traveller draw action cards can reach the generator, for a reshuffle:
/// landing on any other card leaves the generator as it is.
pub proof fn lemma_landed_leaves_generator(
    s: GameView,
    card: SpaceCard,
    after: GameView,
    result: Result<(), SelfishError>,
)
    requires
        s.seated(s.whose_turn),
        s.landed(card, after, result),
        card != SpaceCard::UsefulJunk,
        card != SpaceCard::MysteriousNebula,
    ensures
        after.rng == s.rng,
{
    if card == SpaceCard::Meteoroid && s.players[s.whose_turn].hand.len() > 6 {
        let cards = choose|cards: Seq<GameCard>|
            (after, result) == #[trigger] s.forced_discard(2, cards);
        lemma_shed_keeps_track(s, cards);
    }
    if card == SpaceCard::WormHole {
        let other = choose|other: PlayerReference|
            (after, result) == #[trigger] s.worm_hole(other);
    }
}

/// The draws on the generator, in travel: travel that lands on a card other
/// than useful junk and a mysterious nebula, or runs out of track, leaves
/// the generator as it is.
pub proof fn lemma_travelled_leaves_generator(
    s: GameView,
    after: GameView,
    result: Result<(), SelfishError>,
)
    requires
        s.seated(s.whose_turn),
        s.travelled(after, result),
        crate::state::hyperspace_run(s.track) < s.track.len() ==> {
            let landing = s.track[crate::state::hyperspace_run(s.track) as int];
            landing != SpaceCard::UsefulJunk && landing != SpaceCard::MysteriousNebula
        },
    ensures
        after.rng == s.rng,
{
    let jumps = crate::state::hyperspace_run(s.track);
    crate::state::lemma_hyperspace_run_bound(s.track);
    if jumps < s.track.len() {
        lemma_landed_leaves_generator(
            s.advanced(jumps as int + 1),
            s.track[jumps as int],
            after,
            result,
        );
    }
}

/// The draws on the generator, in a draw: a draw from an available pile
/// that holds a card, or from two empty piles, leaves the generator as it
/// is.
pub proof fn lemma_drew_leaves_generator(s: GameView, after: GameView, card: Option<GameCard>)
    requires
        s.drew(after, card),
        s.available.len() > 0 || s.discard.len() == 0,
    ensures
        after.rng == s.rng,
{
}

/// The draws on the generator, in an action. A refused action, a defended
/// one, and every action but the tractor beam, which picks a card at random,
/// and the rocket booster, which travels, leave the generator as it is.
pub proof fn lemma_resolved_leaves_generator(
    s: GameView,
    action: Action,
    after: GameView,
    result: Result<(), SelfishError>,
)
    requires
        s.seated(s.whose_turn),
        s.resolved(action, after, result),
        s.refusal(action) is None ==> {
            ||| !(action is TractorBeam) && !(action is RocketBooster)
            ||| !s.answered(action, false, after, result)
        },
    ensures
        after.rng == s.rng,
{
    if s.refusal(action) is None && s.answered(action, false, after, result) {
        match action {
            Action::HackSuit { target } => {
                let choice = choose|choice: GameCard|
                    (after, result) == #[trigger] s.hack_suit(target, choice);
            },
            _ => {},
        }
    }
}

} // verus!
