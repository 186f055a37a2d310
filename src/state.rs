//! The top-level game mode and its double-buffered transitions.
use vstd::prelude::*;

verus! {

/// The mode the game is in.
#[derive(Clone, Copy, Debug, PartialEq, Eq, Structural)]
pub enum GameState {
    StartMenu,
    LoadingGame,
    InGame,
    Paused,
    /// A station's menu is open over the running game.
    InGameMenu,
}

/// A resolved change of mode.
#[derive(Clone, Copy, Debug, PartialEq, Eq, Structural)]
pub struct Transition {
    pub exited: GameState,
    pub entered: GameState,
}

/// The current mode and the mode requested for the next resolution.
#[derive(Clone, Copy, Debug, PartialEq, Eq, Structural)]
pub struct StateMachine {
    pub current: GameState,
    pub next: Option<GameState>,
}

impl StateMachine {
    /// The machine after a request for `s`; a later request in the same tick
    /// replaces an earlier one.
    pub open spec fn requested(self, s: GameState) -> StateMachine {
        StateMachine { next: Some(s), ..self }
    }

    /// The machine after the pause key: in game it asks for a pause, paused it
    /// asks to resume, and in any other mode it does nothing.
    pub open spec fn pause_toggled(self) -> StateMachine {
        match self.current {
            GameState::InGame => self.requested(GameState::Paused),
            GameState::Paused => self.requested(GameState::InGame),
            _ => self,
        }
    }

    /// The machine after a station was clicked: it asks for the station menu
    /// unless that menu is already the mode.
    pub open spec fn menu_requested(self) -> StateMachine {
        if self.current == GameState::InGameMenu {
            self
        } else {
            self.requested(GameState::InGameMenu)
        }
    }

    /// The machine after the transition point of a tick, and the transition made
    /// there. A pending request for another mode is applied; entering
    /// `LoadingGame` at once asks for `InGame`, which the next resolution applies.
    pub open spec fn resolved(self) -> (StateMachine, Option<Transition>) {
        match self.next {
            Some(s) => if s == self.current {
                (StateMachine { current: self.current, next: None }, None)
            } else {
                (
                    StateMachine {
                        current: s,
                        next: if s == GameState::LoadingGame {
                            Some(GameState::InGame)
                        } else {
                            None
                        },
                    },
                    Some(Transition { exited: self.current, entered: s }),
                )
            },
            None => (self, None),
        }
    }

    /// A machine in the start menu with nothing pending.
    pub fn new() -> (r: StateMachine)
        ensures
            r == (StateMachine { current: GameState::StartMenu, next: None }),
    {
        StateMachine { current: GameState::StartMenu, next: None }
    }

    pub fn current(&self) -> (r: GameState)
        ensures
            r == self.current,
    {
        self.current
    }

    /// Asks for `s` at the next resolution.
    pub fn set_next(&mut self, s: GameState)
        ensures
            *final(self) == old(self).requested(s),
    {
        self.next = Some(s);
    }

    /// Reacts to the pause key.
    pub fn toggle_pause(&mut self)
        ensures
            *final(self) == old(self).pause_toggled(),
    {
        match self.current {
            GameState::InGame => self.set_next(GameState::Paused),
            GameState::Paused => self.set_next(GameState::InGame),
            _ => {},
        }
    }

    /// Reacts to a request to start the game.
    pub fn start_game(&mut self)
        ensures
            *final(self) == old(self).requested(GameState::LoadingGame),
    {
        self.set_next(GameState::LoadingGame);
    }

    /// Reacts to a click on a station; returns whether the menu was asked for.
    pub fn request_menu(&mut self) -> (r: bool)
        ensures
            *final(self) == old(self).menu_requested(),
            r == (old(self).current != GameState::InGameMenu),
    {
        if self.current == GameState::InGameMenu {
            false
        } else {
            self.set_next(GameState::InGameMenu);
            true
        }
    }

    /// Reacts to the station menu being closed.
    pub fn close_menu(&mut self)
        ensures
            *final(self) == old(self).requested(GameState::InGame),
    {
        self.set_next(GameState::InGame);
    }

    /// Applies the pending request, if any, and returns the transition made.
    pub fn resolve(&mut self) -> (r: Option<Transition>)
        ensures
            (*final(self), r) == old(self).resolved(),
    {
        match self.next {
            Some(s) => {
                self.next = None;
                if s == self.current {
                    None
                } else {
                    let exited = self.current;
                    self.current = s;
                    if s == GameState::LoadingGame {
                        self.next = Some(GameState::InGame);
                    }
                    Some(Transition { exited, entered: s })
                }
            },
            None => None,
        }
    }
}

/// From the start menu, a request to start followed by one resolution enters
/// `LoadingGame`, and one more resolution with no further request enters
/// `InGame`.
pub proof fn lemma_start_then_two_resolutions(m: StateMachine)
    requires
        m.current == GameState::StartMenu,
    ensures
        m.requested(GameState::LoadingGame).resolved().0.current == GameState::LoadingGame,
        m.requested(GameState::LoadingGame).resolved().1 == Some(
            Transition { exited: GameState::StartMenu, entered: GameState::LoadingGame },
        ),
        m.requested(GameState::LoadingGame).resolved().0.resolved().0 == (StateMachine {
            current: GameState::InGame,
            next: None,
        }),
{
}

/// A station click while the station menu is the mode changes nothing.
pub proof fn lemma_menu_request_idempotent(m: StateMachine)
    requires
        m.current == GameState::InGameMenu,
    ensures
        m.menu_requested() == m,
{
}

/// Each resolution changes the mode at most once: it enters exactly the mode
/// that was pending, never one that entering it asks for.
pub proof fn lemma_one_step_per_resolution(m: StateMachine)
    ensures
        m.resolved().1 matches Some(t) ==> m.next == Some(t.entered) && t.exited == m.current
            && m.resolved().0.current == t.entered,
        m.resolved().1 is None ==> m.resolved().0.current == m.current,
{
}

} // verus!
