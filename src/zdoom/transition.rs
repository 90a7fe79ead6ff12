//! Telling a level transition, and so a load, from the sequence of game
//! actions the engine goes through between two levels.
use vstd::prelude::*;
use super::GameAction;
use super::player::PlayerState;

verus! {

/// Where the engine stands in a level transition.
#[derive(Clone, Copy, Debug, PartialEq, Eq, Structural)]
pub enum LevelTransitionLoadState {
    NotTransitioning,
    ActionCompleted,
    AfterCompletedBeforeWorldDone,
    ActionWorldDone,
    ActionAutoSaveAfterWorldDone,
}

/// The transition state after a tick whose game action is `action`: a
/// completed level leads, possibly through a pause with no action, to the
/// world being done, possibly to an autosave, and back to no action.
pub open spec fn next_transition(s: LevelTransitionLoadState, action: GameAction) -> LevelTransitionLoadState {
    match s {
        LevelTransitionLoadState::NotTransitioning => match action {
            GameAction::Completed => LevelTransitionLoadState::ActionCompleted,
            GameAction::WorldDone => LevelTransitionLoadState::ActionWorldDone,
            _ => s,
        },
        LevelTransitionLoadState::ActionCompleted => match action {
            GameAction::Nothing => LevelTransitionLoadState::AfterCompletedBeforeWorldDone,
            GameAction::WorldDone => LevelTransitionLoadState::ActionWorldDone,
            _ => s,
        },
        LevelTransitionLoadState::AfterCompletedBeforeWorldDone => match action {
            GameAction::WorldDone => LevelTransitionLoadState::ActionWorldDone,
            _ => s,
        },
        LevelTransitionLoadState::ActionWorldDone => match action {
            GameAction::AutoSave => LevelTransitionLoadState::ActionAutoSaveAfterWorldDone,
            GameAction::Nothing => LevelTransitionLoadState::NotTransitioning,
            _ => s,
        },
        LevelTransitionLoadState::ActionAutoSaveAfterWorldDone => match action {
            GameAction::Nothing => LevelTransitionLoadState::NotTransitioning,
            _ => s,
        },
    }
}

impl LevelTransitionLoadState {
    /// The state after a tick whose game action is `action`.
    pub fn next(self, action: GameAction) -> (r: LevelTransitionLoadState)
        ensures
            r == next_transition(self, action),
    {
        match self {
            LevelTransitionLoadState::NotTransitioning => match action {
                GameAction::Completed => LevelTransitionLoadState::ActionCompleted,
                GameAction::WorldDone => LevelTransitionLoadState::ActionWorldDone,
                _ => self,
            },
            LevelTransitionLoadState::ActionCompleted => match action {
                GameAction::Nothing => LevelTransitionLoadState::AfterCompletedBeforeWorldDone,
                GameAction::WorldDone => LevelTransitionLoadState::ActionWorldDone,
                _ => self,
            },
            LevelTransitionLoadState::AfterCompletedBeforeWorldDone => match action {
                GameAction::WorldDone => LevelTransitionLoadState::ActionWorldDone,
                _ => self,
            },
            LevelTransitionLoadState::ActionWorldDone => match action {
                GameAction::AutoSave => LevelTransitionLoadState::ActionAutoSaveAfterWorldDone,
                GameAction::Nothing => LevelTransitionLoadState::NotTransitioning,
                _ => self,
            },
            LevelTransitionLoadState::ActionAutoSaveAfterWorldDone => match action {
                GameAction::Nothing => LevelTransitionLoadState::NotTransitioning,
                _ => self,
            },
        }
    }

    /// Whether the game counts as loading: during a level transition, or
    /// while the player is entering the game.
    pub fn is_loading(self, player: PlayerState) -> (r: bool)
        ensures
            r == (self != LevelTransitionLoadState::NotTransitioning || player == PlayerState::Enter),
    {
        !matches!(self, LevelTransitionLoadState::NotTransitioning) || matches!(player, PlayerState::Enter)
    }
}

} // verus!
