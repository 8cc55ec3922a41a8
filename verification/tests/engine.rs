use selfish::actions::BreatheOrTravel;
use selfish::game::{Game, Phase};
use selfish::player_controller::PlayerController;
use selfish::visible_state::VisibleState;
use selfish::{
    Action, GameCard, GameDeck, PlayerReference, RandomPlayerController, SelfishError, SpaceCard,
    SpaceDeck,
};
use std::cell::RefCell;
use std::rc::Rc;

/// What a scripted agent was asked.
#[derive(Default)]
struct Asked {
    states: usize,
    last_hand: Vec<GameCard>,
    last_turn: Option<usize>,
    actions: usize,
    defends: usize,
    breathes: usize,
    discards: Vec<usize>,
    swaps: usize,
    options: Vec<Vec<GameCard>>,
}

/// An agent that answers as it was told to.
struct Scripted {
    actions: Vec<Action>,
    defend: bool,
    discards: Vec<GameCard>,
    swap_with: usize,
    take: Option<GameCard>,
    choice: BreatheOrTravel,
    asked: Rc<RefCell<Asked>>,
}

impl Scripted {
    fn passive() -> Scripted {
        Scripted {
            actions: Vec::new(),
            defend: false,
            discards: Vec::new(),
            swap_with: 0,
            take: None,
            choice: BreatheOrTravel::Breathe,
            asked: Rc::new(RefCell::new(Asked::default())),
        }
    }
}

impl PlayerController for Scripted {
    fn update_state(&mut self, visible_state: VisibleState) {
        let mut asked = self.asked.borrow_mut();
        asked.states += 1;
        asked.last_hand = visible_state.my_hand.clone();
        asked.last_turn = Some(visible_state.whose_turn.0);
    }

    fn play_action(&mut self) -> Option<Action> {
        self.asked.borrow_mut().actions += 1;
        if self.actions.is_empty() {
            None
        } else {
            Some(self.actions.remove(0))
        }
    }

    fn breathe_or_travel(&mut self) -> BreatheOrTravel {
        self.asked.borrow_mut().breathes += 1;
        self.choice
    }

    fn defend(&mut self, _action: &Action) -> bool {
        self.asked.borrow_mut().defends += 1;
        self.defend
    }

    fn forced_discard(&mut self, card_count: usize) -> Vec<GameCard> {
        self.asked.borrow_mut().discards.push(card_count);
        self.discards.clone()
    }

    fn choose_player_to_swap_with(&mut self) -> PlayerReference {
        self.asked.borrow_mut().swaps += 1;
        PlayerReference(self.swap_with)
    }

    fn choose_card_to_take(&mut self, options: Vec<GameCard>) -> GameCard {
        self.asked.borrow_mut().options.push(options.clone());
        match self.take {
            Some(card) => card,
            None => options[0],
        }
    }
}

/// A game in the actions phase of player 0, with the given hands, empty
/// decks and the given agents.
fn game_with(hands: Vec<Vec<GameCard>>, agents: Vec<Scripted>) -> (Game, Vec<Rc<RefCell<Asked>>>) {
    let mut asked = Vec::new();
    let mut controllers: Vec<Box<dyn PlayerController>> = Vec::new();
    for agent in agents {
        asked.push(agent.asked.clone());
        controllers.push(Box::new(agent));
    }
    let mut game = Game::new(Some(1), controllers);
    for (seat, hand) in hands.into_iter().enumerate() {
        game.players[seat].hand = hand;
    }
    game.game_deck = GameDeck {
        available: Vec::new(),
        discard: Vec::new(),
    };
    game.space_deck = SpaceDeck(Vec::new());
    game.phase = Phase::Actions;
    (game, asked)
}

fn passive_game(hands: Vec<Vec<GameCard>>) -> (Game, Vec<Rc<RefCell<Asked>>>) {
    let agents = hands.iter().map(|_| Scripted::passive()).collect();
    game_with(hands, agents)
}

fn count(cards: &[GameCard], card: GameCard) -> usize {
    cards.iter().filter(|c| **c == card).count()
}

fn total(game: &Game, card: GameCard) -> usize {
    let mut sum = count(&game.game_deck.available, card) + count(&game.game_deck.discard, card);
    for player in &game.players {
        sum += count(&player.hand, card);
    }
    sum
}

fn all_kinds() -> Vec<(GameCard, usize)> {
    vec![
        (GameCard::O1, 38),
        (GameCard::O2, 20),
        (GameCard::OxygenSiphon, 3),
        (GameCard::Shield, 4),
        (GameCard::HackSuit, 3),
        (GameCard::TractorBeam, 4),
        (GameCard::RocketBooster, 4),
        (GameCard::LaserBlast, 4),
        (GameCard::HoleInSuit, 4),
        (GameCard::Tether, 4),
    ]
}

fn hands(game: &Game) -> Vec<Vec<GameCard>> {
    game.players.iter().map(|p| p.hand.clone()).collect()
}

use GameCard::{
    HackSuit, HoleInSuit, LaserBlast, OxygenSiphon, RocketBooster, Shield, Tether, TractorBeam, O1,
    O2,
};

#[test]
fn new_game_deals_one_o2_and_four_o1_to_everybody() {
    let controllers: Vec<Box<dyn PlayerController>> = vec![
        Box::new(Scripted::passive()),
        Box::new(Scripted::passive()),
        Box::new(Scripted::passive()),
    ];
    let game = Game::new(Some(99), controllers);
    assert_eq!(game.player_count(), 3);
    for player in &game.players {
        assert!(player.alive);
        assert_eq!(player.hand, vec![O2, O1, O1, O1, O1]);
        assert!(player.space.is_empty());
    }
    assert_eq!(game.whose_turn_reference, PlayerReference(0));
    assert_eq!(game.phase, Phase::Pickup);
    assert!(!game.game_over);
    assert_eq!(game.game_deck.available.len(), 73);
    assert!(game.game_deck.discard.is_empty());
    assert_eq!(count(&game.game_deck.available, O1), 26);
    assert_eq!(count(&game.game_deck.available, O2), 17);
    assert_eq!(game.space_deck.0.len(), 42);
    for (card, copies) in all_kinds() {
        assert_eq!(total(&game, card), copies);
    }
}

#[test]
fn new_game_for_nine_players_deals_all_but_two_o1() {
    let mut controllers: Vec<Box<dyn PlayerController>> = Vec::new();
    for _ in 0..9 {
        controllers.push(Box::new(Scripted::passive()));
    }
    let game = Game::new(Some(5), controllers);
    assert_eq!(game.player_count(), 9);
    assert_eq!(count(&game.game_deck.available, O1), 2);
    assert_eq!(count(&game.game_deck.available, O2), 11);
}

#[test]
fn same_seed_gives_the_same_game() {
    let make = || {
        let controllers: Vec<Box<dyn PlayerController>> =
            vec![Box::new(Scripted::passive()), Box::new(Scripted::passive())];
        Game::new(Some(31337), controllers)
    };
    let first = make();
    let second = make();
    assert_eq!(first.game_deck.available, second.game_deck.available);
    assert_eq!(first.space_deck.0, second.space_deck.0);
    assert_ne!(first.space_deck.0, SpaceDeck::new().0);
}

#[test]
fn another_seed_gives_another_game() {
    let make = |seed: u64| {
        let controllers: Vec<Box<dyn PlayerController>> =
            vec![Box::new(Scripted::passive()), Box::new(Scripted::passive())];
        Game::new(Some(seed), controllers)
    };
    assert_ne!(make(1).game_deck.available, make(2).game_deck.available);
    assert_ne!(make(1).space_deck.0, make(2).space_deck.0);
}

#[test]
fn a_game_without_a_seed_is_dealt_all_the_same() {
    let controllers: Vec<Box<dyn PlayerController>> =
        vec![Box::new(Scripted::passive()), Box::new(Scripted::passive())];
    let game = Game::new(None, controllers);
    assert_eq!(hands(&game), vec![vec![O2, O1, O1, O1, O1]; 2]);
    for (card, copies) in all_kinds() {
        assert_eq!(total(&game, card), copies);
    }
}

#[test]
fn tractor_beam_moves_one_card_and_is_discarded() {
    let controllers: Vec<Box<dyn PlayerController>> = vec![
        Box::new(RandomPlayerController::new()),
        Box::new(RandomPlayerController::new()),
    ];
    let mut game = Game::new(Some(42), controllers);
    game.player_mut(&PlayerReference(0)).unwrap().give(TractorBeam);
    game.phase = Phase::Actions;
    assert_eq!(game.players[0].hand.len(), 6);
    assert_eq!(game.players[1].hand.len(), 5);
    assert!(!game.players[1].has_card(&Shield));
    let played = game.action(Action::TractorBeam {
        target: PlayerReference(1),
    });
    assert_eq!(played, Ok(()));
    assert_eq!(game.players[0].hand.len(), 6);
    assert_eq!(game.players[1].hand.len(), 4);
    assert!(!game.players[0].has_card(&TractorBeam));
    assert_eq!(game.game_deck.discard, vec![TractorBeam]);
    assert_eq!(
        count(&game.players[0].hand, O1) + count(&game.players[1].hand, O1),
        8
    );
    assert_eq!(
        count(&game.players[0].hand, O2) + count(&game.players[1].hand, O2),
        2
    );
    for (card, copies) in all_kinds() {
        let added = if card == TractorBeam { 1 } else { 0 };
        assert_eq!(total(&game, card), copies + added);
    }
}

#[test]
fn attacking_yourself_fails_and_changes_nothing() {
    let (mut game, _) = passive_game(vec![vec![OxygenSiphon, O1, O1], vec![O1, O1]]);
    for action in [
        Action::OxygenSiphon {
            target: PlayerReference(0),
        },
        Action::HackSuit {
            target: PlayerReference(0),
        },
        Action::TractorBeam {
            target: PlayerReference(0),
        },
        Action::LaserBlast {
            target: PlayerReference(0),
        },
        Action::HoleInSuit {
            target: PlayerReference(0),
        },
        Action::Tether {
            target: PlayerReference(0),
        },
    ] {
        assert_eq!(game.action(action), Err(SelfishError::CantAttackYourself));
        assert_eq!(hands(&game), vec![vec![OxygenSiphon, O1, O1], vec![O1, O1]]);
        assert!(game.game_deck.discard.is_empty());
        assert!(game.players[0].alive);
        assert_eq!(game.phase, Phase::Actions);
        assert_eq!(game.whose_turn_reference, PlayerReference(0));
    }
}

#[test]
fn a_refused_action_leaves_the_generator_alone() {
    let (mut game, asked) = passive_game(vec![vec![TractorBeam, LaserBlast], vec![Shield]]);
    let before = game.rng.clone();
    assert_eq!(
        game.action(Action::TractorBeam {
            target: PlayerReference(0)
        }),
        Err(SelfishError::CantAttackYourself)
    );
    assert_eq!(
        game.action(Action::OxygenSiphon {
            target: PlayerReference(1)
        }),
        Err(SelfishError::PlayerDoesNotHaveEnoughCards(PlayerReference(1), 2))
    );
    assert_eq!(game.rng, before);
    assert_eq!(asked[0].borrow().states, 0);
    assert_eq!(asked[1].borrow().states, 0);
    assert_eq!(asked[1].borrow().defends, 0);
}

#[test]
fn a_defended_action_leaves_the_generator_alone() {
    let mut defender = Scripted::passive();
    defender.defend = true;
    let (mut game, asked) = game_with(
        vec![vec![TractorBeam], vec![O1, Shield]],
        vec![Scripted::passive(), defender],
    );
    let before = game.rng.clone();
    assert_eq!(
        game.action(Action::TractorBeam {
            target: PlayerReference(1)
        }),
        Ok(())
    );
    assert_eq!(game.rng, before);
    assert_eq!(hands(&game), vec![vec![], vec![O1]]);
    assert_eq!(asked[0].borrow().states, 0);
}

#[test]
fn a_tractor_beam_draws_on_the_generator() {
    let (mut game, _) = passive_game(vec![vec![TractorBeam], vec![O1, O2, Tether, LaserBlast]]);
    let before = game.rng.clone();
    assert_eq!(
        game.action(Action::TractorBeam {
            target: PlayerReference(1)
        }),
        Ok(())
    );
    assert_ne!(game.rng, before);
}

#[test]
fn a_plain_landing_leaves_generator_and_agents_alone() {
    let (mut game, asked) = passive_game(vec![vec![O1], vec![O1]]);
    game.space_deck = SpaceDeck(vec![
        SpaceCard::BlankSpace,
        SpaceCard::SolarFlare,
        SpaceCard::CosmicRadiation,
    ]);
    game.game_deck.available = vec![Tether];
    game.game_deck.discard = vec![Shield, O2];
    let before = game.rng.clone();
    assert_eq!(game.add_space(), Ok(()));
    assert_eq!(game.add_space(), Ok(()));
    assert_eq!(game.add_space(), Ok(()));
    assert_eq!(game.rng, before);
    assert_eq!(asked[0].borrow().states, 0);
    assert_eq!(asked[0].borrow().swaps, 0);
    assert_eq!(game.game_deck.available, vec![Tether]);
    assert_eq!(game.game_deck.discard, vec![Shield, O2, O1]);
}

#[test]
fn only_a_reshuffle_draws_on_the_generator() {
    let (mut game, _) = passive_game(vec![vec![O1], vec![O1]]);
    game.game_deck.available = vec![Tether];
    game.game_deck.discard = vec![Shield, O2, LaserBlast, HoleInSuit];
    let before = game.rng.clone();
    assert_eq!(game.draw_card(), Some(Tether));
    assert_eq!(game.rng, before);
    assert!(game.draw_card().is_some());
    assert_ne!(game.rng, before);
    assert!(game.game_deck.discard.is_empty());
    assert_eq!(game.game_deck.available.len(), 3);
}

#[test]
fn a_target_outside_the_roster_does_not_exist() {
    let (mut game, _) = passive_game(vec![vec![LaserBlast], vec![O1]]);
    let target = PlayerReference(2);
    assert_eq!(
        game.action(Action::LaserBlast { target }),
        Err(SelfishError::PlayerDoesNotExist(target))
    );
    assert_eq!(game.validate(&Action::LaserBlast { target }), Err(SelfishError::PlayerDoesNotExist(target)));
    assert_eq!(hands(&game), vec![vec![LaserBlast], vec![O1]]);
}

#[test]
fn a_dead_target_does_not_exist() {
    let (mut game, _) = passive_game(vec![vec![TractorBeam], vec![O1, O1], vec![O1]]);
    game.players[1].alive = false;
    let target = PlayerReference(1);
    assert_eq!(
        game.action(Action::TractorBeam { target }),
        Err(SelfishError::PlayerDoesNotExist(target))
    );
    assert_eq!(hands(&game), vec![vec![TractorBeam], vec![O1, O1], vec![O1]]);
}

#[test]
fn an_action_that_leaves_the_dead_alone_can_be_aimed_at_them() {
    let mut ghost = Scripted::passive();
    ghost.defend = true;
    let (mut game, asked) = game_with(
        vec![
            vec![HoleInSuit, Tether, LaserBlast, OxygenSiphon, O1],
            vec![Shield, O2],
            vec![O1],
        ],
        vec![Scripted::passive(), ghost, Scripted::passive()],
    );
    game.players[1].alive = false;
    let target = PlayerReference(1);
    assert_eq!(game.action(Action::HoleInSuit { target }), Ok(()));
    assert_eq!(game.action(Action::Tether { target }), Ok(()));
    assert_eq!(game.action(Action::LaserBlast { target }), Ok(()));
    assert_eq!(game.action(Action::OxygenSiphon { target }), Ok(()));
    assert_eq!(asked[1].borrow().defends, 0);
    assert_eq!(asked[1].borrow().states, 0);
    assert_eq!(hands(&game), vec![vec![O1], vec![Shield, O2], vec![O1]]);
    assert!(game.players[1].space.is_empty());
    assert!(!game.players[1].alive);
    assert_eq!(
        game.game_deck.discard,
        vec![HoleInSuit, Tether, LaserBlast, OxygenSiphon]
    );
    assert_eq!(game.whose_turn_reference, PlayerReference(0));
}

#[test]
fn an_action_that_would_disturb_the_dead_is_refused() {
    let (mut game, _) = passive_game(vec![
        vec![LaserBlast, OxygenSiphon, HackSuit, TractorBeam],
        vec![O1, O2],
        vec![O1],
    ]);
    game.players[1].alive = false;
    game.players[1].space = vec![SpaceCard::BlankSpace];
    let target = PlayerReference(1);
    for action in [
        Action::LaserBlast { target },
        Action::OxygenSiphon { target },
        Action::HackSuit { target },
        Action::TractorBeam { target },
    ] {
        assert_eq!(
            game.action(action),
            Err(SelfishError::PlayerDoesNotExist(target))
        );
    }
    assert_eq!(
        hands(&game),
        vec![
            vec![LaserBlast, OxygenSiphon, HackSuit, TractorBeam],
            vec![O1, O2],
            vec![O1]
        ]
    );
    assert_eq!(game.players[1].space, vec![SpaceCard::BlankSpace]);
    assert!(game.game_deck.discard.is_empty());
}

#[test]
fn a_dead_target_with_too_few_cards_has_too_few_cards() {
    let (mut game, _) = passive_game(vec![
        vec![TractorBeam, OxygenSiphon, HackSuit],
        vec![],
        vec![O1],
    ]);
    game.players[1].alive = false;
    game.players[2].alive = false;
    let one = PlayerReference(1);
    let two = PlayerReference(2);
    assert_eq!(
        game.action(Action::TractorBeam { target: one }),
        Err(SelfishError::PlayerDoesNotHaveEnoughCards(one, 1))
    );
    assert_eq!(
        game.action(Action::HackSuit { target: one }),
        Err(SelfishError::PlayerDoesNotHaveEnoughCards(one, 1))
    );
    assert_eq!(
        game.action(Action::OxygenSiphon { target: two }),
        Err(SelfishError::PlayerDoesNotHaveEnoughCards(two, 2))
    );
    assert_eq!(
        game.action(Action::TractorBeam { target: two }),
        Err(SelfishError::PlayerDoesNotExist(two))
    );
    assert_eq!(
        hands(&game),
        vec![vec![TractorBeam, OxygenSiphon, HackSuit], vec![], vec![O1]]
    );
    assert!(game.game_deck.discard.is_empty());
}

#[test]
fn a_theft_needs_enough_cards_in_the_hand_of_the_target() {
    let (mut game, _) = passive_game(vec![
        vec![OxygenSiphon, HackSuit, TractorBeam],
        vec![O1],
        vec![],
    ]);
    let one = PlayerReference(1);
    let two = PlayerReference(2);
    assert_eq!(
        game.action(Action::OxygenSiphon { target: one }),
        Err(SelfishError::PlayerDoesNotHaveEnoughCards(one, 2))
    );
    assert_eq!(
        game.action(Action::HackSuit { target: two }),
        Err(SelfishError::PlayerDoesNotHaveEnoughCards(two, 1))
    );
    assert_eq!(
        game.action(Action::TractorBeam { target: two }),
        Err(SelfishError::PlayerDoesNotHaveEnoughCards(two, 1))
    );
    assert_eq!(
        hands(&game),
        vec![vec![OxygenSiphon, HackSuit, TractorBeam], vec![O1], vec![]]
    );
    assert!(game.game_deck.discard.is_empty());
}

#[test]
fn an_action_needs_its_card_in_the_hand_of_the_actor() {
    let (mut game, _) = passive_game(vec![vec![O1], vec![O1, O1]]);
    assert_eq!(
        game.action(Action::LaserBlast {
            target: PlayerReference(1)
        }),
        Err(SelfishError::PlayerDoesNotHaveThisCard(LaserBlast))
    );
    assert_eq!(
        game.action(Action::RocketBooster),
        Err(SelfishError::PlayerDoesNotHaveThisCard(RocketBooster))
    );
    assert_eq!(hands(&game), vec![vec![O1], vec![O1, O1]]);
}

#[test]
fn validate_admits_a_lawful_action_and_changes_nothing() {
    let (game, _) = passive_game(vec![vec![HoleInSuit, RocketBooster], vec![]]);
    assert_eq!(
        game.validate(&Action::HoleInSuit {
            target: PlayerReference(1)
        }),
        Ok(())
    );
    assert_eq!(game.validate(&Action::RocketBooster), Ok(()));
    assert_eq!(hands(&game), vec![vec![HoleInSuit, RocketBooster], vec![]]);
}

#[test]
fn a_shield_blocks_the_attack_and_both_cards_are_discarded() {
    let mut defender = Scripted::passive();
    defender.defend = true;
    let (mut game, asked) = game_with(
        vec![vec![O1, LaserBlast], vec![O1, Shield, Shield]],
        vec![Scripted::passive(), defender],
    );
    game.players[1].space = vec![SpaceCard::BlankSpace, SpaceCard::UsefulJunk];
    let played = game.action(Action::LaserBlast {
        target: PlayerReference(1),
    });
    assert_eq!(played, Ok(()));
    assert_eq!(asked[1].borrow().defends, 1);
    assert_eq!(asked[1].borrow().last_hand, vec![O1, Shield, Shield]);
    assert_eq!(asked[1].borrow().last_turn, Some(0));
    assert_eq!(
        game.players[1].space,
        vec![SpaceCard::BlankSpace, SpaceCard::UsefulJunk]
    );
    assert_eq!(hands(&game), vec![vec![O1], vec![O1, Shield]]);
    assert_eq!(game.game_deck.discard, vec![Shield, LaserBlast]);
    assert_eq!(game.phase, Phase::Actions);
    assert_eq!(game.whose_turn_reference, PlayerReference(0));
}

#[test]
fn a_shield_blocks_the_siphon_and_nobody_dies() {
    let mut defender = Scripted::passive();
    defender.defend = true;
    let (mut game, _) = game_with(
        vec![vec![OxygenSiphon], vec![Shield, O2]],
        vec![Scripted::passive(), defender],
    );
    assert_eq!(
        game.action(Action::OxygenSiphon {
            target: PlayerReference(1)
        }),
        Ok(())
    );
    assert!(game.players[1].alive);
    assert!(!game.game_over);
    assert_eq!(hands(&game), vec![vec![], vec![O2]]);
    assert_eq!(game.game_deck.discard, vec![Shield, OxygenSiphon]);
}

#[test]
fn a_target_who_declines_to_defend_keeps_the_shield() {
    let (mut game, asked) = passive_game(vec![vec![LaserBlast], vec![Shield]]);
    game.players[1].space = vec![SpaceCard::BlankSpace, SpaceCard::UsefulJunk];
    assert_eq!(
        game.action(Action::LaserBlast {
            target: PlayerReference(1)
        }),
        Ok(())
    );
    assert_eq!(asked[1].borrow().defends, 1);
    assert_eq!(game.players[1].space, vec![SpaceCard::BlankSpace]);
    assert_eq!(hands(&game), vec![vec![], vec![Shield]]);
    assert_eq!(game.game_deck.discard, vec![LaserBlast]);
}

#[test]
fn a_target_in_a_solar_flare_cannot_defend() {
    let mut defender = Scripted::passive();
    defender.defend = true;
    let (mut game, asked) = game_with(
        vec![vec![LaserBlast], vec![Shield]],
        vec![Scripted::passive(), defender],
    );
    game.players[1].space = vec![SpaceCard::BlankSpace, SpaceCard::SolarFlare];
    assert_eq!(game.can_player_defend(&PlayerReference(1)), Ok(false));
    assert_eq!(
        game.action(Action::LaserBlast {
            target: PlayerReference(1)
        }),
        Ok(())
    );
    assert_eq!(asked[1].borrow().defends, 0);
    assert_eq!(game.players[1].space, vec![SpaceCard::BlankSpace]);
    assert_eq!(hands(&game), vec![vec![], vec![Shield]]);
}

#[test]
fn a_target_without_a_shield_is_not_asked() {
    let mut defender = Scripted::passive();
    defender.defend = true;
    let (mut game, asked) = game_with(
        vec![vec![HoleInSuit], vec![O1]],
        vec![Scripted::passive(), defender],
    );
    assert_eq!(game.can_player_defend(&PlayerReference(1)), Ok(false));
    assert_eq!(
        game.action(Action::HoleInSuit {
            target: PlayerReference(1)
        }),
        Ok(())
    );
    assert_eq!(asked[1].borrow().defends, 0);
    assert_eq!(hands(&game), vec![vec![], vec![O1]]);
    assert_eq!(game.game_deck.discard, vec![HoleInSuit]);
}

#[test]
fn can_player_defend_needs_a_shield_and_no_flare() {
    let (mut game, _) = passive_game(vec![vec![Shield], vec![O1]]);
    assert_eq!(game.can_player_defend(&PlayerReference(0)), Ok(true));
    assert_eq!(game.can_player_defend(&PlayerReference(1)), Ok(false));
    game.players[0].space.push(SpaceCard::SolarFlare);
    assert_eq!(game.can_player_defend(&PlayerReference(0)), Ok(false));
    assert_eq!(
        game.can_player_defend(&PlayerReference(2)),
        Err(SelfishError::PlayerDoesNotExist(PlayerReference(2)))
    );
}

#[test]
fn resolve_with_a_defence_spends_shield_and_action_card() {
    let (mut game, _) = passive_game(vec![vec![Tether, O2], vec![O1, Shield]]);
    let action = Action::Tether {
        target: PlayerReference(1),
    };
    assert_eq!(game.resolve(action, true), Ok(()));
    assert_eq!(hands(&game), vec![vec![O2], vec![O1]]);
    assert_eq!(game.game_deck.discard, vec![Shield, Tether]);
}

#[test]
fn siphon_kills_a_target_without_o1_and_gains_nothing() {
    let (mut game, _) = passive_game(vec![vec![OxygenSiphon, O1], vec![O2, O2], vec![O1]]);
    assert_eq!(
        game.action(Action::OxygenSiphon {
            target: PlayerReference(1)
        }),
        Ok(())
    );
    assert!(!game.players[1].alive);
    assert!(game.players[0].alive);
    assert_eq!(hands(&game), vec![vec![O1], vec![O2, O2], vec![O1]]);
    assert_eq!(game.game_deck.discard, vec![OxygenSiphon]);
    assert!(!game.game_over);
    assert_eq!(game.whose_turn_reference, PlayerReference(0));
    assert_eq!(game.phase, Phase::Actions);
}

#[test]
fn siphon_takes_the_last_o1_and_kills_the_target() {
    let (mut game, _) = passive_game(vec![vec![OxygenSiphon, O2], vec![O2, O1]]);
    assert_eq!(
        game.action(Action::OxygenSiphon {
            target: PlayerReference(1)
        }),
        Ok(())
    );
    assert!(!game.players[1].alive);
    assert_eq!(hands(&game), vec![vec![O2, O1], vec![O2]]);
    assert_eq!(game.game_deck.discard, vec![OxygenSiphon]);
    assert!(game.game_over);
    assert_eq!(game.whose_turn_reference, PlayerReference(0));
}

#[test]
fn siphon_takes_two_o1_and_hands_over_one() {
    let (mut game, _) = passive_game(vec![vec![OxygenSiphon], vec![O1, O2, O1, O1]]);
    assert_eq!(
        game.action(Action::OxygenSiphon {
            target: PlayerReference(1)
        }),
        Ok(())
    );
    assert!(game.players[1].alive);
    assert_eq!(hands(&game), vec![vec![O1], vec![O2, O1]]);
    assert_eq!(game.game_deck.discard, vec![OxygenSiphon]);
    assert_eq!(total(&game, O1), 2);
    assert!(!game.game_over);
}

#[test]
fn resolve_carries_out_an_admitted_siphon() {
    let (mut game, _) = passive_game(vec![vec![OxygenSiphon], vec![O1, O1]]);
    let action = Action::OxygenSiphon {
        target: PlayerReference(1),
    };
    assert_eq!(game.validate(&action), Ok(()));
    assert_eq!(game.resolve(action, false), Ok(()));
    assert_eq!(hands(&game), vec![vec![O1], vec![]]);
    assert_eq!(game.game_deck.discard, vec![OxygenSiphon]);
    assert!(game.players[1].alive);
}

#[test]
fn hack_suit_shows_the_kinds_and_moves_the_chosen_one() {
    let mut hacker = Scripted::passive();
    hacker.take = Some(Tether);
    let (mut game, asked) = game_with(
        vec![vec![O2, HackSuit], vec![O1, LaserBlast, O1, Tether, LaserBlast]],
        vec![hacker, Scripted::passive()],
    );
    assert_eq!(
        game.action(Action::HackSuit {
            target: PlayerReference(1)
        }),
        Ok(())
    );
    assert_eq!(asked[0].borrow().options, vec![vec![O1, LaserBlast, Tether]]);
    assert_eq!(asked[0].borrow().last_hand, vec![O2, HackSuit]);
    assert_eq!(
        hands(&game),
        vec![vec![O2, Tether], vec![O1, LaserBlast, O1, LaserBlast]]
    );
    assert_eq!(game.game_deck.discard, vec![HackSuit]);
}

#[test]
fn hack_suit_for_a_card_not_held_fails_and_changes_nothing() {
    let mut hacker = Scripted::passive();
    hacker.take = Some(Shield);
    let (mut game, _) = game_with(
        vec![vec![HackSuit], vec![O1, O2]],
        vec![hacker, Scripted::passive()],
    );
    assert_eq!(
        game.action(Action::HackSuit {
            target: PlayerReference(1)
        }),
        Err(SelfishError::PlayerDoesNotHaveThisCard(Shield))
    );
    assert_eq!(hands(&game), vec![vec![HackSuit], vec![O1, O2]]);
    assert!(game.game_deck.discard.is_empty());
}

#[test]
fn hack_suit_takes_the_first_card_of_the_kind() {
    let (mut game, _) = passive_game(vec![vec![HackSuit], vec![O2, O1, O2, O1]]);
    assert_eq!(game.hack_suit(&PlayerReference(1), O1), Ok(()));
    assert_eq!(hands(&game), vec![vec![O1], vec![O2, O2, O1]]);
    assert_eq!(game.game_deck.discard, vec![HackSuit]);
    assert_eq!(
        game.hack_suit(&PlayerReference(2), O1),
        Err(SelfishError::PlayerDoesNotExist(PlayerReference(2)))
    );
    assert_eq!(hands(&game), vec![vec![O1], vec![O2, O2, O1]]);
}

#[test]
fn laser_blast_pushes_the_target_back_one_step() {
    let (mut game, _) = passive_game(vec![vec![LaserBlast, LaserBlast], vec![O1]]);
    game.players[1].space = vec![SpaceCard::WormHole];
    let action = Action::LaserBlast {
        target: PlayerReference(1),
    };
    assert_eq!(game.action(action), Ok(()));
    assert!(game.players[1].space.is_empty());
    assert_eq!(game.action(action), Ok(()));
    assert!(game.players[1].space.is_empty());
    assert_eq!(hands(&game), vec![vec![], vec![O1]]);
    assert_eq!(game.game_deck.discard, vec![LaserBlast, LaserBlast]);
}

#[test]
fn hole_in_suit_and_tether_only_cost_their_card() {
    let (mut game, _) = passive_game(vec![vec![HoleInSuit, O1, Tether], vec![O1, O2]]);
    game.players[1].space = vec![SpaceCard::WormHole];
    let target = PlayerReference(1);
    assert_eq!(game.action(Action::HoleInSuit { target }), Ok(()));
    assert_eq!(game.action(Action::Tether { target }), Ok(()));
    assert_eq!(hands(&game), vec![vec![O1], vec![O1, O2]]);
    assert_eq!(game.players[1].space, vec![SpaceCard::WormHole]);
    assert!(game.players[1].alive);
    assert_eq!(game.game_deck.discard, vec![HoleInSuit, Tether]);
}

#[test]
fn rocket_booster_moves_the_actor_along_the_track() {
    let (mut game, _) = passive_game(vec![vec![RocketBooster, O1], vec![O1]]);
    game.space_deck = SpaceDeck(vec![SpaceCard::BlankSpace, SpaceCard::SolarFlare]);
    assert_eq!(game.action(Action::RocketBooster), Ok(()));
    assert_eq!(game.players[0].space, vec![SpaceCard::BlankSpace]);
    assert_eq!(game.space_deck.0, vec![SpaceCard::SolarFlare]);
    assert_eq!(hands(&game), vec![vec![O1], vec![O1]]);
    assert_eq!(game.game_deck.discard, vec![RocketBooster]);
}

#[test]
fn rocket_booster_into_radiation_kills_an_actor_without_o1() {
    let (mut game, _) = passive_game(vec![vec![RocketBooster, O2], vec![O1], vec![O1]]);
    game.space_deck = SpaceDeck(vec![SpaceCard::CosmicRadiation]);
    assert_eq!(game.action(Action::RocketBooster), Ok(()));
    assert!(!game.players[0].alive);
    assert_eq!(game.players[0].hand, vec![RocketBooster, O2]);
    assert_eq!(game.players[0].space, vec![SpaceCard::CosmicRadiation]);
    assert!(game.game_deck.discard.is_empty());
    assert_eq!(game.whose_turn_reference, PlayerReference(1));
    assert_eq!(game.phase, Phase::Pickup);
    assert!(!game.game_over);
}

#[test]
fn rocket_booster_stops_at_a_failed_landing() {
    let mut actor = Scripted::passive();
    actor.discards = vec![O1];
    let (mut game, _) = game_with(
        vec![vec![RocketBooster, O1, O1, O1, O1, O1, O1], vec![O1]],
        vec![actor, Scripted::passive()],
    );
    game.space_deck = SpaceDeck(vec![SpaceCard::Meteoroid]);
    assert_eq!(
        game.action(Action::RocketBooster),
        Err(SelfishError::InvalidDiscardCount {
            expected: 2,
            actual: 1
        })
    );
    assert_eq!(game.players[0].space, vec![SpaceCard::Meteoroid]);
    assert_eq!(game.players[0].hand.len(), 7);
    assert!(game.players[0].has_card(&RocketBooster));
    assert!(game.game_deck.discard.is_empty());
}

#[test]
fn meteoroid_makes_a_hand_of_seven_discard_two() {
    let mut traveller = Scripted::passive();
    traveller.discards = vec![Shield, O1];
    let (mut game, asked) = game_with(
        vec![vec![O1, O2, Shield, O1, Tether, O1, O2], vec![O1]],
        vec![traveller, Scripted::passive()],
    );
    game.space_deck = SpaceDeck(vec![SpaceCard::Meteoroid]);
    assert_eq!(game.add_space(), Ok(()));
    assert_eq!(asked[0].borrow().discards, vec![2]);
    assert_eq!(asked[0].borrow().last_hand.len(), 7);
    assert_eq!(game.players[0].hand, vec![O2, O1, Tether, O1, O2]);
    assert_eq!(game.game_deck.discard, vec![Shield, O1]);
    assert_eq!(game.players[0].space, vec![SpaceCard::Meteoroid]);
}

#[test]
fn meteoroid_refuses_one_discard_for_two() {
    let mut traveller = Scripted::passive();
    traveller.discards = vec![O1];
    let (mut game, _) = game_with(
        vec![vec![O1, O2, Shield, O1, Tether, O1, O2]],
        vec![traveller],
    );
    game.space_deck = SpaceDeck(vec![SpaceCard::Meteoroid]);
    assert_eq!(
        game.add_space(),
        Err(SelfishError::InvalidDiscardCount {
            expected: 2,
            actual: 1
        })
    );
    assert_eq!(game.players[0].hand, vec![O1, O2, Shield, O1, Tether, O1, O2]);
    assert!(game.game_deck.discard.is_empty());
}

#[test]
fn meteoroid_refuses_three_discards_for_two() {
    let (mut game, _) = passive_game(vec![vec![O1, O2, Shield, O1, Tether, O1, O2]]);
    assert_eq!(
        game.forced_discard(2, &vec![O1, O1, O1]),
        Err(SelfishError::InvalidDiscardCount {
            expected: 2,
            actual: 3
        })
    );
    assert_eq!(game.players[0].hand.len(), 7);
}

#[test]
fn meteoroid_spares_a_hand_of_six() {
    let mut traveller = Scripted::passive();
    traveller.discards = vec![O1, O1];
    let (mut game, asked) = game_with(vec![vec![O1, O2, Shield, O1, Tether, O1]], vec![traveller]);
    game.space_deck = SpaceDeck(vec![SpaceCard::Meteoroid]);
    assert_eq!(game.add_space(), Ok(()));
    assert!(asked[0].borrow().discards.is_empty());
    assert_eq!(game.players[0].hand.len(), 6);
    assert!(game.game_deck.discard.is_empty());
}

#[test]
fn forced_discard_stops_at_the_first_card_not_held() {
    let (mut game, _) = passive_game(vec![vec![O1, O2, Shield]]);
    assert_eq!(
        game.forced_discard(2, &vec![O2, Tether]),
        Err(SelfishError::PlayerDoesNotHaveThisCard(Tether))
    );
    assert_eq!(game.players[0].hand, vec![O1, Shield]);
    assert_eq!(game.game_deck.discard, vec![O2]);
}

#[test]
fn forced_discard_needs_two_cards_of_a_kind_named_twice() {
    let (mut game, _) = passive_game(vec![vec![O1, O2, Shield]]);
    assert_eq!(
        game.forced_discard(2, &vec![O1, O1]),
        Err(SelfishError::PlayerDoesNotHaveThisCard(O1))
    );
    assert_eq!(game.players[0].hand, vec![O2, Shield]);
    assert_eq!(game.game_deck.discard, vec![O1]);
}

#[test]
fn hyperspace_draws_another_space_card() {
    let (mut game, _) = passive_game(vec![vec![O1], vec![O1]]);
    game.players[0].space = vec![SpaceCard::UsefulJunk];
    game.space_deck = SpaceDeck(vec![
        SpaceCard::Hyperspace,
        SpaceCard::BlankSpace,
        SpaceCard::SolarFlare,
    ]);
    assert_eq!(game.add_space(), Ok(()));
    assert_eq!(
        game.players[0].space,
        vec![
            SpaceCard::UsefulJunk,
            SpaceCard::Hyperspace,
            SpaceCard::BlankSpace
        ]
    );
    assert_eq!(game.space_deck.0, vec![SpaceCard::SolarFlare]);
}

#[test]
fn hyperspace_chains_through_every_jump_in_a_row() {
    let (mut game, _) = passive_game(vec![vec![O1]]);
    game.space_deck = SpaceDeck(vec![
        SpaceCard::Hyperspace,
        SpaceCard::Hyperspace,
        SpaceCard::Hyperspace,
        SpaceCard::SolarFlare,
        SpaceCard::Hyperspace,
    ]);
    assert_eq!(game.add_space(), Ok(()));
    assert_eq!(
        game.players[0].space,
        vec![
            SpaceCard::Hyperspace,
            SpaceCard::Hyperspace,
            SpaceCard::Hyperspace,
            SpaceCard::SolarFlare
        ]
    );
    assert_eq!(game.space_deck.0, vec![SpaceCard::Hyperspace]);
}

#[test]
fn hyperspace_as_the_last_card_of_the_deck_ends_the_move() {
    let (mut game, _) = passive_game(vec![vec![O1]]);
    game.space_deck = SpaceDeck(vec![SpaceCard::Hyperspace]);
    assert_eq!(game.add_space(), Ok(()));
    assert_eq!(game.players[0].space, vec![SpaceCard::Hyperspace]);
    assert!(game.space_deck.is_empty());
}

#[test]
fn travel_on_an_exhausted_track_moves_nobody() {
    let (mut game, _) = passive_game(vec![vec![O1]]);
    assert_eq!(game.add_space(), Ok(()));
    assert!(game.players[0].space.is_empty());
    assert_eq!(game.players[0].hand, vec![O1]);
}

#[test]
fn blank_space_and_solar_flare_only_join_the_track() {
    let (mut game, _) = passive_game(vec![vec![O1]]);
    game.space_deck = SpaceDeck(vec![SpaceCard::BlankSpace, SpaceCard::SolarFlare]);
    assert_eq!(game.add_space(), Ok(()));
    assert_eq!(game.add_space(), Ok(()));
    assert_eq!(
        game.players[0].space,
        vec![SpaceCard::BlankSpace, SpaceCard::SolarFlare]
    );
    assert_eq!(game.players[0].hand, vec![O1]);
    assert!(game.players[0].in_solar_flare());
}

#[test]
fn useful_junk_draws_one_card_and_nebula_two() {
    let (mut game, _) = passive_game(vec![vec![O1]]);
    game.game_deck.available = vec![Shield, Tether, O2, LaserBlast];
    game.space_deck = SpaceDeck(vec![SpaceCard::UsefulJunk, SpaceCard::MysteriousNebula]);
    assert_eq!(game.add_space(), Ok(()));
    assert_eq!(game.players[0].hand, vec![O1, LaserBlast]);
    assert_eq!(game.add_space(), Ok(()));
    assert_eq!(game.players[0].hand, vec![O1, LaserBlast, O2, Tether]);
    assert_eq!(game.game_deck.available, vec![Shield]);
    assert_eq!(
        game.players[0].space,
        vec![SpaceCard::UsefulJunk, SpaceCard::MysteriousNebula]
    );
}

#[test]
fn nebula_draws_what_the_piles_still_hold() {
    let (mut game, _) = passive_game(vec![vec![O1]]);
    game.game_deck.available = vec![Shield];
    game.space_deck = SpaceDeck(vec![SpaceCard::MysteriousNebula]);
    assert_eq!(game.add_space(), Ok(()));
    assert_eq!(game.players[0].hand, vec![O1, Shield]);
    assert!(game.game_deck.available.is_empty());
}

#[test]
fn cosmic_radiation_costs_an_o1() {
    let (mut game, _) = passive_game(vec![vec![O2, O1, O1], vec![O1]]);
    game.space_deck = SpaceDeck(vec![SpaceCard::CosmicRadiation]);
    assert_eq!(game.add_space(), Ok(()));
    assert!(game.players[0].alive);
    assert_eq!(game.players[0].hand, vec![O2, O1]);
    assert_eq!(game.game_deck.discard, vec![O1]);
    assert_eq!(game.whose_turn_reference, PlayerReference(0));
}

#[test]
fn cosmic_radiation_kills_a_traveller_without_o1() {
    let (mut game, _) = passive_game(vec![vec![O2], vec![O1]]);
    game.space_deck = SpaceDeck(vec![SpaceCard::CosmicRadiation]);
    assert_eq!(game.add_space(), Ok(()));
    assert!(!game.players[0].alive);
    assert_eq!(game.players[0].hand, vec![O2]);
    assert!(game.game_over);
    assert_eq!(game.whose_turn_reference, PlayerReference(1));
    assert_eq!(game.phase, Phase::Pickup);
}

#[test]
fn asteroid_field_costs_two_o1() {
    let (mut game, _) = passive_game(vec![vec![O1, O2, O1, O1], vec![O1]]);
    game.space_deck = SpaceDeck(vec![SpaceCard::AsteroidField]);
    assert_eq!(game.add_space(), Ok(()));
    assert!(game.players[0].alive);
    assert_eq!(game.players[0].hand, vec![O2, O1]);
    assert_eq!(game.game_deck.discard, vec![O1, O1]);
}

#[test]
fn asteroid_field_kills_a_traveller_with_one_o1_and_spares_the_next_player() {
    let (mut game, _) = passive_game(vec![vec![O1, O2], vec![O1, O1], vec![O1]]);
    game.space_deck = SpaceDeck(vec![SpaceCard::AsteroidField]);
    assert_eq!(game.add_space(), Ok(()));
    assert!(!game.players[0].alive);
    assert_eq!(hands(&game), vec![vec![O2], vec![O1, O1], vec![O1]]);
    assert_eq!(game.game_deck.discard, vec![O1]);
    assert!(game.players[1].alive);
    assert_eq!(game.whose_turn_reference, PlayerReference(1));
}

#[test]
fn gravitational_anomaly_takes_the_step_back() {
    let (mut game, _) = passive_game(vec![vec![O1]]);
    game.players[0].space = vec![SpaceCard::BlankSpace];
    game.space_deck = SpaceDeck(vec![SpaceCard::GravitationalAnomaly]);
    assert_eq!(game.add_space(), Ok(()));
    assert_eq!(game.players[0].space, vec![SpaceCard::BlankSpace]);
    assert!(game.space_deck.is_empty());
}

#[test]
fn hyperspace_into_an_anomaly_leaves_the_jump_on_the_track() {
    let (mut game, _) = passive_game(vec![vec![O1]]);
    game.space_deck = SpaceDeck(vec![
        SpaceCard::Hyperspace,
        SpaceCard::GravitationalAnomaly,
    ]);
    assert_eq!(game.add_space(), Ok(()));
    assert_eq!(game.players[0].space, vec![SpaceCard::Hyperspace]);
    assert!(game.space_deck.is_empty());
}

#[test]
fn worm_hole_exchanges_the_tracks() {
    let mut traveller = Scripted::passive();
    traveller.swap_with = 2;
    let (mut game, asked) = game_with(
        vec![vec![O1], vec![O1], vec![O1]],
        vec![traveller, Scripted::passive(), Scripted::passive()],
    );
    game.players[0].space = vec![SpaceCard::BlankSpace];
    game.players[2].space = vec![SpaceCard::SolarFlare, SpaceCard::UsefulJunk];
    game.space_deck = SpaceDeck(vec![SpaceCard::WormHole]);
    assert_eq!(game.add_space(), Ok(()));
    assert_eq!(asked[0].borrow().swaps, 1);
    assert_eq!(
        game.players[0].space,
        vec![SpaceCard::SolarFlare, SpaceCard::UsefulJunk]
    );
    assert_eq!(
        game.players[2].space,
        vec![SpaceCard::BlankSpace, SpaceCard::WormHole]
    );
    assert!(game.players[1].space.is_empty());
}

#[test]
fn worm_hole_with_nobody_or_the_dead_fails() {
    let mut traveller = Scripted::passive();
    traveller.swap_with = 5;
    let (mut game, _) = game_with(
        vec![vec![O1], vec![O1]],
        vec![traveller, Scripted::passive()],
    );
    game.space_deck = SpaceDeck(vec![SpaceCard::WormHole]);
    assert_eq!(
        game.add_space(),
        Err(SelfishError::PlayerDoesNotExist(PlayerReference(5)))
    );
    assert_eq!(game.players[0].space, vec![SpaceCard::WormHole]);
    game.players[1].alive = false;
    game.players[1].space = vec![SpaceCard::BlankSpace];
    assert_eq!(
        game.worm_hole(&PlayerReference(1)),
        Err(SelfishError::PlayerDoesNotExist(PlayerReference(1)))
    );
    assert_eq!(game.players[0].space, vec![SpaceCard::WormHole]);
    assert_eq!(game.players[1].space, vec![SpaceCard::BlankSpace]);
}

#[test]
fn worm_hole_with_oneself_changes_nothing() {
    let (mut game, _) = passive_game(vec![vec![O1], vec![O1]]);
    game.players[0].space = vec![SpaceCard::BlankSpace];
    assert_eq!(game.worm_hole(&PlayerReference(0)), Ok(()));
    assert_eq!(game.players[0].space, vec![SpaceCard::BlankSpace]);
}

#[test]
fn land_on_applies_the_effect_of_a_card() {
    let (mut game, _) = passive_game(vec![vec![O1, O1], vec![O1]]);
    assert_eq!(game.land_on(SpaceCard::CosmicRadiation), Ok(()));
    assert_eq!(game.players[0].hand, vec![O1]);
    assert_eq!(game.land_on(SpaceCard::Hyperspace), Ok(()));
    assert_eq!(game.land_on(SpaceCard::GravitationalAnomaly), Ok(()));
    assert!(game.players[0].space.is_empty());
    assert_eq!(game.players[0].hand, vec![O1]);
}

#[test]
fn swap_space_exchanges_two_tracks_or_names_the_missing_player() {
    let (mut game, _) = passive_game(vec![vec![], vec![], vec![]]);
    game.players[0].space = vec![SpaceCard::BlankSpace];
    game.players[1].space = vec![SpaceCard::WormHole, SpaceCard::SolarFlare];
    assert_eq!(
        game.swap_space(&PlayerReference(0), &PlayerReference(1)),
        Ok(())
    );
    assert_eq!(
        game.players[0].space,
        vec![SpaceCard::WormHole, SpaceCard::SolarFlare]
    );
    assert_eq!(game.players[1].space, vec![SpaceCard::BlankSpace]);
    assert_eq!(
        game.swap_space(&PlayerReference(3), &PlayerReference(4)),
        Err(SelfishError::PlayerDoesNotExist(PlayerReference(3)))
    );
    assert_eq!(
        game.swap_space(&PlayerReference(0), &PlayerReference(4)),
        Err(SelfishError::PlayerDoesNotExist(PlayerReference(4)))
    );
    assert_eq!(game.players[1].space, vec![SpaceCard::BlankSpace]);
}

#[test]
fn pickup_draws_the_top_card_and_opens_the_actions_phase() {
    let (mut game, _) = passive_game(vec![vec![O1], vec![O2]]);
    game.phase = Phase::Pickup;
    game.game_deck.available = vec![Tether, Shield];
    assert_eq!(game.draw_card_phase(), Some(Shield));
    assert_eq!(game.phase, Phase::Actions);
    assert_eq!(hands(&game), vec![vec![O1, Shield], vec![O2]]);
    assert_eq!(game.game_deck.available, vec![Tether]);
}

#[test]
fn drawing_from_an_empty_pile_turns_the_discard_pile_over() {
    let (mut game, _) = passive_game(vec![vec![O1], vec![O2]]);
    game.game_deck.discard = vec![Tether, Shield, O1, LaserBlast];
    let card = game.draw_card().unwrap();
    assert!(game.game_deck.discard.is_empty());
    assert_eq!(game.game_deck.available.len(), 3);
    assert_eq!(game.players[0].hand, vec![O1, card]);
    for kind in [Tether, Shield, LaserBlast] {
        assert_eq!(total(&game, kind), 1);
    }
    assert_eq!(total(&game, O1), 2);
}

#[test]
fn drawing_from_two_empty_piles_draws_nothing() {
    let (mut game, _) = passive_game(vec![vec![O1], vec![O2]]);
    assert_eq!(game.draw_card(), None);
    game.phase = Phase::Pickup;
    assert_eq!(game.draw_card_phase(), None);
    assert_eq!(game.phase, Phase::Actions);
    assert_eq!(hands(&game), vec![vec![O1], vec![O2]]);
}

#[test]
fn discard_moves_the_card_to_the_discard_pile() {
    let (mut game, _) = passive_game(vec![vec![O1, Tether, O1], vec![O2]]);
    assert_eq!(game.discard(&Tether), Ok(()));
    assert_eq!(game.players[0].hand, vec![O1, O1]);
    assert_eq!(game.game_deck.discard, vec![Tether]);
    assert_eq!(
        game.discard(&Tether),
        Err(SelfishError::PlayerDoesNotHaveThisCard(Tether))
    );
    assert_eq!(game.players[0].hand, vec![O1, O1]);
    assert_eq!(game.game_deck.discard, vec![Tether]);
}

#[test]
fn discard_or_die_discards_or_kills() {
    let (mut game, _) = passive_game(vec![vec![O2, O1], vec![O2], vec![O2]]);
    assert_eq!(game.discard_or_die(O1), Ok(()));
    assert!(game.players[0].alive);
    assert_eq!(game.players[0].hand, vec![O2]);
    assert_eq!(game.game_deck.discard, vec![O1]);
    assert_eq!(game.discard_or_die(O1), Ok(()));
    assert!(!game.players[0].alive);
    assert_eq!(game.players[0].hand, vec![O2]);
    assert_eq!(game.whose_turn_reference, PlayerReference(1));
    assert_eq!(game.phase, Phase::Pickup);
}

#[test]
fn remove_random_card_names_what_is_wrong() {
    let (mut game, _) = passive_game(vec![vec![O1], vec![]]);
    assert_eq!(
        game.remove_random_card(&PlayerReference(1)),
        Err(SelfishError::PlayerHasNoCardsLeft)
    );
    assert_eq!(
        game.remove_random_card(&PlayerReference(2)),
        Err(SelfishError::PlayerDoesNotExist(PlayerReference(2)))
    );
    assert_eq!(game.remove_random_card(&PlayerReference(0)), Ok(O1));
    assert!(game.players[0].hand.is_empty());
}

#[test]
fn the_turn_passes_to_the_next_living_player() {
    let (mut game, _) = passive_game(vec![vec![], vec![], vec![], vec![]]);
    game.players[1].alive = false;
    game.players[2].alive = false;
    game.next_player();
    assert_eq!(game.whose_turn_reference, PlayerReference(3));
    game.next_player();
    assert_eq!(game.whose_turn_reference, PlayerReference(0));
    game.players[2].alive = true;
    game.next_player();
    assert_eq!(game.whose_turn_reference, PlayerReference(2));
    assert_eq!(game.phase, Phase::Actions);
}

#[test]
fn the_turn_stays_where_nobody_else_lives() {
    let (mut game, _) = passive_game(vec![vec![], vec![], vec![]]);
    game.players[0].alive = false;
    game.players[2].alive = false;
    game.whose_turn_reference = PlayerReference(1);
    game.next_player();
    assert_eq!(game.whose_turn_reference, PlayerReference(1));
    game.players[1].alive = false;
    game.next_player();
    assert_eq!(game.whose_turn_reference, PlayerReference(1));
}

#[test]
fn the_game_is_over_when_one_player_is_left() {
    let (mut game, _) = passive_game(vec![vec![], vec![], vec![]]);
    game.check_game_over();
    assert!(!game.game_over);
    assert_eq!(game.player_died(&PlayerReference(1)), Ok(()));
    assert!(!game.game_over);
    assert_eq!(game.whose_turn_reference, PlayerReference(0));
    assert_eq!(game.phase, Phase::Actions);
    assert_eq!(game.player_died(&PlayerReference(0)), Ok(()));
    assert!(game.game_over);
    assert_eq!(game.whose_turn_reference, PlayerReference(2));
    assert_eq!(game.phase, Phase::Pickup);
    assert_eq!(
        game.player_died(&PlayerReference(3)),
        Err(SelfishError::PlayerDoesNotExist(PlayerReference(3)))
    );
}

#[test]
fn a_player_without_oxygen_dies_at_the_end_of_the_turn() {
    let (mut game, asked) = passive_game(vec![vec![Shield], vec![O1], vec![O1]]);
    assert_eq!(game.breathe_or_travel(), Ok(()));
    assert!(!game.players[0].alive);
    assert_eq!(game.players[0].hand, vec![Shield]);
    assert_eq!(game.whose_turn_reference, PlayerReference(1));
    assert_eq!(game.phase, Phase::Pickup);
    assert_eq!(asked[0].borrow().breathes, 0);
}

#[test]
fn a_player_with_o1_alone_breathes() {
    let (mut game, asked) = passive_game(vec![vec![Shield, O1, O1], vec![O1]]);
    game.space_deck = SpaceDeck(vec![SpaceCard::BlankSpace]);
    assert_eq!(game.breathe_or_travel(), Ok(()));
    assert_eq!(game.players[0].hand, vec![Shield, O1]);
    assert_eq!(game.game_deck.discard, vec![O1]);
    assert!(game.players[0].space.is_empty());
    assert_eq!(game.whose_turn_reference, PlayerReference(1));
    assert_eq!(game.phase, Phase::Pickup);
    assert_eq!(asked[0].borrow().breathes, 0);
}

#[test]
fn a_player_with_o2_alone_travels() {
    let (mut game, asked) = passive_game(vec![vec![O2, Shield], vec![O1]]);
    game.space_deck = SpaceDeck(vec![SpaceCard::BlankSpace, SpaceCard::WormHole]);
    assert_eq!(game.breathe_or_travel(), Ok(()));
    assert_eq!(game.players[0].hand, vec![Shield]);
    assert_eq!(game.game_deck.discard, vec![O2]);
    assert_eq!(game.players[0].space, vec![SpaceCard::BlankSpace]);
    assert_eq!(game.whose_turn_reference, PlayerReference(1));
    assert_eq!(game.phase, Phase::Pickup);
    assert_eq!(asked[0].borrow().breathes, 0);
}

#[test]
fn a_player_with_both_kinds_of_oxygen_is_asked() {
    let mut traveller = Scripted::passive();
    traveller.choice = BreatheOrTravel::Travel;
    let (mut game, asked) = game_with(
        vec![vec![O1, O2], vec![O1, O2]],
        vec![traveller, Scripted::passive()],
    );
    game.space_deck = SpaceDeck(vec![SpaceCard::SolarFlare]);
    assert_eq!(game.breathe_or_travel(), Ok(()));
    assert_eq!(asked[0].borrow().breathes, 1);
    assert_eq!(asked[0].borrow().last_hand, vec![O1, O2]);
    assert_eq!(game.players[0].hand, vec![O1]);
    assert_eq!(game.players[0].space, vec![SpaceCard::SolarFlare]);
    game.phase = Phase::Actions;
    assert_eq!(game.breathe_or_travel(), Ok(()));
    assert_eq!(asked[1].borrow().breathes, 1);
    assert_eq!(game.players[1].hand, vec![O2]);
    assert_eq!(game.game_deck.discard, vec![O2, O1]);
    assert_eq!(game.whose_turn_reference, PlayerReference(0));
}

#[test]
fn a_traveller_who_dies_on_the_way_passes_the_turn_once() {
    let (mut game, _) = passive_game(vec![vec![O2], vec![O1], vec![O1]]);
    game.space_deck = SpaceDeck(vec![SpaceCard::CosmicRadiation]);
    assert_eq!(game.breathe_or_travel(), Ok(()));
    assert!(!game.players[0].alive);
    assert_eq!(game.game_deck.discard, vec![O2]);
    assert_eq!(game.whose_turn_reference, PlayerReference(1));
    assert_eq!(game.phase, Phase::Pickup);
}

#[test]
fn a_failed_landing_still_ends_the_turn() {
    let mut traveller = Scripted::passive();
    traveller.swap_with = 9;
    let (mut game, _) = game_with(
        vec![vec![O2], vec![O1]],
        vec![traveller, Scripted::passive()],
    );
    game.space_deck = SpaceDeck(vec![SpaceCard::WormHole]);
    assert_eq!(
        game.breathe_or_travel(),
        Err(SelfishError::PlayerDoesNotExist(PlayerReference(9)))
    );
    assert_eq!(game.whose_turn_reference, PlayerReference(1));
    assert_eq!(game.phase, Phase::Pickup);
    assert_eq!(game.players[0].space, vec![SpaceCard::WormHole]);
}

#[test]
fn spend_oxygen_needs_the_card() {
    let (mut game, _) = passive_game(vec![vec![O2], vec![O1]]);
    assert_eq!(
        game.spend_oxygen(BreatheOrTravel::Breathe),
        Err(SelfishError::PlayerDoesNotHaveThisCard(O1))
    );
    assert_eq!(game.whose_turn_reference, PlayerReference(0));
    assert_eq!(game.players[0].hand, vec![O2]);
    game.whose_turn_reference = PlayerReference(1);
    assert_eq!(
        game.spend_oxygen(BreatheOrTravel::Travel),
        Err(SelfishError::PlayerDoesNotHaveThisCard(O2))
    );
    assert_eq!(game.spend_oxygen(BreatheOrTravel::Breathe), Ok(()));
    assert_eq!(game.whose_turn_reference, PlayerReference(0));
}

#[test]
fn a_turn_is_pickup_then_actions_then_oxygen() {
    let mut actor = Scripted::passive();
    actor.actions = vec![
        Action::LaserBlast {
            target: PlayerReference(1),
        },
        Action::HoleInSuit {
            target: PlayerReference(1),
        },
    ];
    let (mut game, asked) = game_with(
        vec![vec![O1, LaserBlast], vec![O1]],
        vec![actor, Scripted::passive()],
    );
    game.phase = Phase::Pickup;
    game.game_deck.available = vec![Tether, HoleInSuit];
    game.players[1].space = vec![SpaceCard::UsefulJunk];
    assert_eq!(game.take_turn(), Ok(()));
    assert_eq!(asked[0].borrow().actions, 3);
    assert_eq!(asked[0].borrow().states, 3);
    assert_eq!(hands(&game), vec![vec![], vec![O1]]);
    assert!(game.players[1].space.is_empty());
    assert_eq!(game.game_deck.discard, vec![LaserBlast, HoleInSuit, O1]);
    assert_eq!(game.game_deck.available, vec![Tether]);
    assert_eq!(game.whose_turn_reference, PlayerReference(1));
    assert_eq!(game.phase, Phase::Pickup);
}

#[test]
fn a_refused_action_ends_the_actions_of_the_turn() {
    let mut actor = Scripted::passive();
    actor.actions = vec![
        Action::LaserBlast {
            target: PlayerReference(0),
        },
        Action::HoleInSuit {
            target: PlayerReference(1),
        },
    ];
    let (mut game, asked) = game_with(
        vec![vec![O1, LaserBlast, HoleInSuit], vec![O1]],
        vec![actor, Scripted::passive()],
    );
    game.phase = Phase::Pickup;
    assert_eq!(game.take_turn(), Ok(()));
    assert_eq!(asked[0].borrow().actions, 1);
    assert_eq!(hands(&game), vec![vec![LaserBlast, HoleInSuit], vec![O1]]);
    assert_eq!(game.game_deck.discard, vec![O1]);
    assert_eq!(game.whose_turn_reference, PlayerReference(1));
}

#[test]
fn a_player_in_a_solar_flare_plays_no_action() {
    let mut actor = Scripted::passive();
    actor.actions = vec![Action::HoleInSuit {
        target: PlayerReference(1),
    }];
    let (mut game, asked) = game_with(
        vec![vec![O1, HoleInSuit], vec![O1]],
        vec![actor, Scripted::passive()],
    );
    game.phase = Phase::Pickup;
    game.players[0].space = vec![SpaceCard::SolarFlare];
    assert_eq!(game.take_turn(), Ok(()));
    assert_eq!(asked[0].borrow().actions, 0);
    assert_eq!(hands(&game), vec![vec![HoleInSuit], vec![O1]]);
    assert_eq!(game.whose_turn_reference, PlayerReference(1));
}

#[test]
fn an_actor_who_dies_in_the_actions_phase_has_no_oxygen_step() {
    let mut actor = Scripted::passive();
    actor.actions = vec![Action::RocketBooster, Action::RocketBooster];
    let (mut game, asked) = game_with(
        vec![vec![O2, RocketBooster, RocketBooster], vec![O1], vec![O1]],
        vec![actor, Scripted::passive(), Scripted::passive()],
    );
    game.phase = Phase::Pickup;
    game.space_deck = SpaceDeck(vec![SpaceCard::CosmicRadiation, SpaceCard::BlankSpace]);
    assert_eq!(game.take_turn(), Ok(()));
    assert_eq!(asked[0].borrow().actions, 1);
    assert!(!game.players[0].alive);
    assert_eq!(game.players[0].hand, vec![O2, RocketBooster, RocketBooster]);
    assert!(game.game_deck.discard.is_empty());
    assert_eq!(game.space_deck.0, vec![SpaceCard::BlankSpace]);
    assert_eq!(game.whose_turn_reference, PlayerReference(1));
    assert_eq!(game.phase, Phase::Pickup);
}

#[test]
fn simulate_plays_until_one_player_is_left() {
    let mut killer = Scripted::passive();
    killer.actions = vec![Action::OxygenSiphon {
        target: PlayerReference(1),
    }];
    let (mut game, _) = game_with(
        vec![vec![O1, O1, OxygenSiphon], vec![O2, O2]],
        vec![killer, Scripted::passive()],
    );
    game.phase = Phase::Pickup;
    assert_eq!(game.simulate(), Ok(()));
    assert!(game.game_over);
    assert!(game.players[0].alive);
    assert!(!game.players[1].alive);
    assert_eq!(hands(&game), vec![vec![O1], vec![O2, O2]]);
    assert_eq!(game.game_deck.discard, vec![OxygenSiphon, O1]);
    assert_eq!(game.phase, Phase::Pickup);
}

#[test]
fn play_turns_stops_at_its_limit() {
    let (mut game, _) = passive_game(vec![vec![O1, O1, O1, O1], vec![O1, O1, O1, O1]]);
    game.phase = Phase::Pickup;
    assert_eq!(game.play_turns(3), 3);
    assert!(!game.game_over);
    assert_eq!(hands(&game), vec![vec![O1, O1, O1], vec![O1, O1, O1, O1]]);
    assert_eq!(game.game_deck.discard, vec![O1]);
    assert!(game.game_deck.available.is_empty());
    assert_eq!(game.whose_turn_reference, PlayerReference(1));
    assert_eq!(game.play_turns(0), 0);
}

#[test]
fn play_turns_stops_when_nobody_lives() {
    let (mut game, _) = passive_game(vec![vec![], vec![]]);
    game.phase = Phase::Pickup;
    game.players[0].alive = false;
    game.players[1].alive = false;
    assert_eq!(game.play_turns(10), 0);
    assert!(!game.game_over);
}

#[test]
fn play_turns_skips_a_dead_player_at_the_start() {
    let (mut game, _) = passive_game(vec![vec![O1], vec![O1, O1], vec![O1, O1]]);
    game.phase = Phase::Pickup;
    game.players[0].alive = false;
    assert_eq!(game.play_turns(1), 1);
    assert_eq!(hands(&game), vec![vec![O1], vec![O1], vec![O1, O1]]);
    assert_eq!(game.whose_turn_reference, PlayerReference(2));
}

#[test]
fn random_players_keep_the_cards_and_leave_the_dead_alone() {
    let controllers: Vec<Box<dyn PlayerController>> = vec![
        Box::new(RandomPlayerController::new()),
        Box::new(RandomPlayerController::new()),
        Box::new(RandomPlayerController::new()),
        Box::new(RandomPlayerController::new()),
    ];
    let mut game = Game::new(Some(2023), controllers);
    let mut played = 0;
    let mut graves: Vec<Option<(Vec<GameCard>, Vec<SpaceCard>)>> = vec![None; 4];
    let mut o1 = 38;
    while played < 2000 && !game.game_over {
        let taken = game.play_turns(1);
        if taken == 0 {
            break;
        }
        played += taken;
        for (card, copies) in all_kinds() {
            if card == O1 {
                assert!(total(&game, card) <= o1);
                o1 = total(&game, card);
            } else {
                assert_eq!(total(&game, card), copies);
            }
        }
        for (seat, player) in game.players.iter().enumerate() {
            match &graves[seat] {
                Some((hand, space)) => {
                    assert!(!player.alive);
                    assert_eq!(&player.hand, hand);
                    assert_eq!(&player.space, space);
                }
                None => {
                    if !player.alive {
                        graves[seat] = Some((player.hand.clone(), player.space.clone()));
                    }
                }
            }
        }
        assert_eq!(game.phase, Phase::Pickup);
        if !game.game_over {
            assert!(game.players[game.whose_turn_reference.0].alive);
            assert!(game.players.iter().filter(|p| p.alive).count() >= 2);
        }
    }
    if game.game_over {
        assert!(game.players.iter().filter(|p| p.alive).count() <= 1);
    }
}

#[test]
fn accessors_check_the_reference() {
    let (mut game, _) = passive_game(vec![vec![O1], vec![O2]]);
    let outside = PlayerReference(2);
    assert_eq!(game.player(&PlayerReference(1)).unwrap().hand, vec![O2]);
    assert_eq!(
        game.player(&outside).err(),
        Some(SelfishError::PlayerDoesNotExist(outside))
    );
    game.player_mut(&PlayerReference(1)).unwrap().give(Tether);
    assert_eq!(game.players[1].hand, vec![O2, Tether]);
    assert_eq!(
        game.player_mut(&outside).err(),
        Some(SelfishError::PlayerDoesNotExist(outside))
    );
    assert_eq!(
        game.player_mut_rng(&outside).err(),
        Some(SelfishError::PlayerDoesNotExist(outside))
    );
    {
        let (player, rng) = game.player_mut_rng(&PlayerReference(1)).unwrap();
        assert_eq!(player.remove_random_card(rng).map(|_| ()), Ok(()));
    }
    assert_eq!(game.players[1].hand.len(), 1);
    game.current_player().give(Shield);
    assert_eq!(game.players[0].hand, vec![O1, Shield]);
    assert!(game.controller(&PlayerReference(1)).is_ok());
    assert_eq!(
        game.controller(&outside).err(),
        Some(SelfishError::PlayerDoesNotExist(outside))
    );
    assert_eq!(game.current_controller().unwrap().play_action(), None);
    game.whose_turn_reference = outside;
    assert_eq!(
        game.current_controller().err(),
        Some(SelfishError::PlayerDoesNotExist(outside))
    );
}
