use vstd::prelude::*;

verus! {

/// The phases of the game.
#[derive(Clone, Copy, Debug, PartialEq, Eq, Structural, Hash)]
pub enum AppState {
    MainMenu,
    Puzzle,
}

/// What the pointer does to a menu button.
#[derive(Clone, Copy, Debug, PartialEq, Eq, Structural)]
pub enum ButtonInteraction {
    Clicked,
    Hovered,
    Idle,
}

/// The shade a menu button takes.
#[derive(Clone, Copy, Debug, PartialEq, Eq, Structural)]
pub enum ButtonLook {
    Normal,
    Hovered,
    Clicked,
}

/// What the menu does in answer to an interaction with the play button.
#[derive(Clone, Copy, Debug, PartialEq, Eq, Structural)]
pub struct ButtonResponse {
    pub look: ButtonLook,
    /// Whether the button leaves the screen.
    pub despawn: bool,
    /// The phase to enter, if any.
    pub next_state: Option<AppState>,
}

/// A click on the play button takes the clicked shade, removes the button and
/// starts the puzzle; hovering or leaving it only changes its shade.
pub fn button_response(interaction: ButtonInteraction) -> (r: ButtonResponse)
    ensures
        r == (match interaction {
            ButtonInteraction::Clicked => ButtonResponse {
                look: ButtonLook::Clicked,
                despawn: true,
                next_state: Some(AppState::Puzzle),
            },
            ButtonInteraction::Hovered => ButtonResponse {
                look: ButtonLook::Hovered,
                despawn: false,
                next_state: None,
            },
            ButtonInteraction::Idle => ButtonResponse {
                look: ButtonLook::Normal,
                despawn: false,
                next_state: None,
            },
        }),
{
    match interaction {
        ButtonInteraction::Clicked => ButtonResponse {
            look: ButtonLook::Clicked,
            despawn: true,
            next_state: Some(AppState::Puzzle),
        },
        ButtonInteraction::Hovered => ButtonResponse {
            look: ButtonLook::Hovered,
            despawn: false,
            next_state: None,
        },
        ButtonInteraction::Idle => ButtonResponse {
            look: ButtonLook::Normal,
            despawn: false,
            next_state: None,
        },
    }
}

} // verus!
