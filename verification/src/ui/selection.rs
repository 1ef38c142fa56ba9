//! What the choices of the menus stand for.

use vstd::prelude::*;
use crate::game::play::PerspectiveMode;
use crate::model::types::PlayerId;
use crate::player::ai::alpha_beta::AIStrength;
use crate::text::same_text;

verus! {

/// Who plays a side.
#[derive(Debug, Clone, Copy, PartialEq, Eq, Structural)]
pub enum Seat {
    /// A person at the terminal.
    Human,
    /// The search engine at the given strength.
    Engine(AIStrength),
}

/// The players of a game and how the board is shown to them.
#[derive(Debug, Clone, Copy, PartialEq, Eq, Structural)]
pub struct Pairing {
    pub first: Seat,
    pub second: Seat,
    pub perspective: PerspectiveMode,
}

/// What a choice of the player menu stands for: `1` two persons, who see
/// the board each from their side; `2` and `3` a person against the light
/// and the strong engine; `4` the strong engine against itself. With an
/// engine the board is shown from the first player's side. Any other choice
/// stands for nothing.
pub open spec fn pairing_for(choice: Seq<char>) -> Option<Pairing> {
    if choice == "1"@ {
        Some(
            Pairing {
                first: Seat::Human,
                second: Seat::Human,
                perspective: PerspectiveMode::AutoFlip,
            },
        )
    } else if choice == "2"@ {
        Some(
            Pairing {
                first: Seat::Human,
                second: Seat::Engine(AIStrength::Light),
                perspective: PerspectiveMode::Fixed(PlayerId::Player1),
            },
        )
    } else if choice == "3"@ {
        Some(
            Pairing {
                first: Seat::Human,
                second: Seat::Engine(AIStrength::Strong),
                perspective: PerspectiveMode::Fixed(PlayerId::Player1),
            },
        )
    } else if choice == "4"@ {
        Some(
            Pairing {
                first: Seat::Engine(AIStrength::Strong),
                second: Seat::Engine(AIStrength::Strong),
                perspective: PerspectiveMode::Fixed(PlayerId::Player1),
            },
        )
    } else {
        None
    }
}

/// What a choice of the player menu stands for.
pub fn create_player_controllers(choice: &str) -> (r: Option<Pairing>)
    ensures
        r == pairing_for(choice@),
{
    if same_text(choice, "1") {
        Some(
            Pairing {
                first: Seat::Human,
                second: Seat::Human,
                perspective: PerspectiveMode::AutoFlip,
            },
        )
    } else if same_text(choice, "2") {
        Some(
            Pairing {
                first: Seat::Human,
                second: Seat::Engine(AIStrength::Light),
                perspective: PerspectiveMode::Fixed(PlayerId::Player1),
            },
        )
    } else if same_text(choice, "3") {
        Some(
            Pairing {
                first: Seat::Human,
                second: Seat::Engine(AIStrength::Strong),
                perspective: PerspectiveMode::Fixed(PlayerId::Player1),
            },
        )
    } else if same_text(choice, "4") {
        Some(
            Pairing {
                first: Seat::Engine(AIStrength::Strong),
                second: Seat::Engine(AIStrength::Strong),
                perspective: PerspectiveMode::Fixed(PlayerId::Player1),
            },
        )
    } else {
        None
    }
}

} // verus!
