//! What a player can do in the actions phase, and the choice that ends a turn.

use crate::game::PlayerReference;
use crate::game_cards::GameCard;
use vstd::prelude::*;

verus! {

/// How a player with both kinds of oxygen ends their turn.
#[derive(Debug, PartialEq, Eq, Clone, Copy, Structural)]
pub enum BreatheOrTravel {
    /// Spend an `O1` and stay.
    Breathe,
    /// Spend an `O2` and move one card along the track.
    Travel,
}

/// A card played in the actions phase, with the player it is aimed at.
#[derive(Debug, PartialEq, Eq, Clone, Copy, Structural)]
pub enum Action {
    OxygenSiphon { target: PlayerReference },
    HackSuit { target: PlayerReference },
    TractorBeam { target: PlayerReference },
    RocketBooster,
    LaserBlast { target: PlayerReference },
    HoleInSuit { target: PlayerReference },
    Tether { target: PlayerReference },
}

/// How the stolen cards of an action are picked.
#[derive(Debug, PartialEq, Eq, Clone, Copy, Structural)]
pub enum StealAccess {
    /// Only cards of this kind are taken.
    Specific(GameCard),
    /// The generator picks.
    Random,
    /// The actor sees which kinds the target holds and picks one.
    SeeCardsAndChoose,
}

/// The theft that an action carries out.
#[derive(Debug, PartialEq, Eq, Clone, Copy, Structural)]
pub struct Steal {
    /// How many cards the target must hold for the action to be played.
    pub count: usize,
    pub visibility: StealAccess,
}

/// What the rules demand of an action before it is resolved.
#[derive(Debug, PartialEq, Eq, Clone, Copy, Structural)]
pub struct ActionRules {
    pub steal: Option<Steal>,
}

impl Default for ActionRules {
    /// The rules of an action that steals nothing.
    fn default() -> (rules: Self)
        ensures
            rules.steal is None,
    {
        ActionRules { steal: None }
    }
}

impl Action {
    /// The card that playing this action spends.
    pub open spec fn spec_card(&self) -> GameCard {
        match self {
            Action::OxygenSiphon { .. } => GameCard::OxygenSiphon,
            Action::HackSuit { .. } => GameCard::HackSuit,
            Action::TractorBeam { .. } => GameCard::TractorBeam,
            Action::RocketBooster => GameCard::RocketBooster,
            Action::LaserBlast { .. } => GameCard::LaserBlast,
            Action::HoleInSuit { .. } => GameCard::HoleInSuit,
            Action::Tether { .. } => GameCard::Tether,
        }
    }

    /// The player this action is aimed at, if it has a target.
    pub open spec fn spec_attacking(&self) -> Option<PlayerReference> {
        match self {
            Action::OxygenSiphon { target } => Some(*target),
            Action::HackSuit { target } => Some(*target),
            Action::TractorBeam { target } => Some(*target),
            Action::RocketBooster => None,
            Action::LaserBlast { target } => Some(*target),
            Action::HoleInSuit { target } => Some(*target),
            Action::Tether { target } => Some(*target),
        }
    }

    /// The seat of the player this action is aimed at; no seat of any
    /// table where it has no target.
    pub open spec fn target_seat(&self) -> int {
        match self.spec_attacking() {
            Some(target) => target.0 as int,
            None => -1,
        }
    }

    /// How many cards the target must hold: two for the siphon, one for the
    /// other two thefts, none otherwise.
    pub open spec fn spec_rules(&self) -> ActionRules {
        match self {
            Action::OxygenSiphon { .. } => ActionRules {
                steal: Some(Steal { count: 2, visibility: StealAccess::Specific(GameCard::O1) }),
            },
            Action::HackSuit { .. } => ActionRules {
                steal: Some(Steal { count: 1, visibility: StealAccess::SeeCardsAndChoose }),
            },
            Action::TractorBeam { .. } => ActionRules {
                steal: Some(Steal { count: 1, visibility: StealAccess::Random }),
            },
            _ => ActionRules { steal: None },
        }
    }

    /// The card that playing this action spends.
    #[verifier::when_used_as_spec(spec_card)]
    pub fn card(&self) -> (card: GameCard)
        ensures
            card == self.spec_card(),
    {
        match self {
            Action::OxygenSiphon { .. } => GameCard::OxygenSiphon,
            Action::HackSuit { .. } => GameCard::HackSuit,
            Action::TractorBeam { .. } => GameCard::TractorBeam,
            Action::RocketBooster => GameCard::RocketBooster,
            Action::LaserBlast { .. } => GameCard::LaserBlast,
            Action::HoleInSuit { .. } => GameCard::HoleInSuit,
            Action::Tether { .. } => GameCard::Tether,
        }
    }

    /// The player this action is aimed at, if it has a target.
    #[verifier::when_used_as_spec(spec_attacking)]
    pub fn attacking(&self) -> (target: Option<PlayerReference>)
        ensures
            target == self.spec_attacking(),
    {
        match self {
            Action::OxygenSiphon { target } => Some(*target),
            Action::HackSuit { target } => Some(*target),
            Action::TractorBeam { target } => Some(*target),
            Action::RocketBooster => None,
            Action::LaserBlast { target } => Some(*target),
            Action::HoleInSuit { target } => Some(*target),
            Action::Tether { target } => Some(*target),
        }
    }

    /// What the rules demand of this action before it is resolved.
    #[verifier::when_used_as_spec(spec_rules)]
    pub fn rules(&self) -> (rules: ActionRules)
        ensures
            rules == self.spec_rules(),
    {
        match self {
            Action::OxygenSiphon { .. } => ActionRules {
                steal: Some(Steal { count: 2, visibility: StealAccess::Specific(GameCard::O1) }),
            },
            Action::HackSuit { .. } => ActionRules {
                steal: Some(Steal { count: 1, visibility: StealAccess::SeeCardsAndChoose }),
            },
            Action::TractorBeam { .. } => ActionRules {
                steal: Some(Steal { count: 1, visibility: StealAccess::Random }),
            },
            Action::RocketBooster => ActionRules::default(),
            Action::LaserBlast { .. } => ActionRules::default(),
            Action::HoleInSuit { .. } => ActionRules::default(),
            Action::Tether { .. } => ActionRules::default(),
        }
    }
}

} // verus!
