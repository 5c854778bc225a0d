//! The game's top-level states, and the step that leaves preparation once
//! the shared texture atlas has loaded.
use vstd::prelude::*;

verus! {

/// Path of the shared terrain texture atlas.
pub const TERRAIN_ATLAS_PATH: &'static str = "textures/terrain.png";

/// Side of one atlas cell, in pixels.
pub const ATLAS_CELL_SIZE: u32 = 16;

/// Number of columns of cells in the atlas.
pub const ATLAS_COLUMNS: u32 = 16;

/// Number of rows of cells in the atlas.
pub const ATLAS_ROWS: u32 = 16;

/// The main state of the game.
#[derive(Clone, Copy, Debug, PartialEq, Eq, Hash, Structural)]
pub enum GameState {
    /// Assets are loading and tile data is being prepared.
    Preparing,
    /// The game is running.
    Running,
}

impl Default for GameState {
    fn default() -> (r: GameState)
        ensures
            r == GameState::Preparing,
    {
        GameState::Preparing
    }
}

/// The state to switch to, if any, given the current state and whether the
/// texture atlas has finished loading: preparation ends once the atlas is
/// loaded; nothing else changes the state.
pub fn check_loading_status(state: GameState, atlas_loaded: bool) -> (r: Option<GameState>)
    ensures
        r == (if state == GameState::Preparing && atlas_loaded {
            Some(GameState::Running)
        } else {
            None::<GameState>
        }),
{
    if state == GameState::Preparing && atlas_loaded {
        Some(GameState::Running)
    } else {
        None
    }
}

} // verus!
