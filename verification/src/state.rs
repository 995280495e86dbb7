use vstd::prelude::*;

verus! {

/// Whether the assets are still loading.
#[derive(Clone, Copy, Debug, PartialEq, Eq, Hash, Structural)]
pub enum AppState {
    Loading,
    Ready,
}

/// Which screen is shown.
#[derive(Clone, Copy, Debug, PartialEq, Eq, Hash, Structural)]
pub enum MenuState {
    MainMenu,
    InGame,
}

/// Phase of a running game.
#[derive(Clone, Copy, Debug, PartialEq, Eq, Hash, Structural)]
pub enum GameState {
    Build,
}

impl Default for AppState {
    fn default() -> (state: AppState)
        ensures
            state == AppState::Loading,
    {
        AppState::Loading
    }
}

impl Default for MenuState {
    fn default() -> (state: MenuState)
        ensures
            state == MenuState::MainMenu,
    {
        MenuState::MainMenu
    }
}

impl Default for GameState {
    fn default() -> (state: GameState)
        ensures
            state == GameState::Build,
    {
        GameState::Build
    }
}

} // verus!
