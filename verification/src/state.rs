//! What the scene does when it is paused, resumed or toggled: the decisions,
//! apart from the engine that carries them out.

use vstd::prelude::*;

verus! {

/// Whether the scene runs or is paused.
#[derive(Clone, Copy, Debug, PartialEq, Eq, Hash, Structural)]
pub enum GameState {
    Active,
    Paused,
}

impl Default for GameState {
    /// A scene starts active.
    fn default() -> (s: GameState)
        ensures
            s == GameState::Active,
    {
        GameState::Active
    }
}

impl GameState {
    /// The other state.
    pub fn toggled(self) -> (s: GameState)
        ensures
            s == toggle_state(self),
    {
        match self {
            GameState::Active => GameState::Paused,
            GameState::Paused => GameState::Active,
        }
    }
}

/// Whether the world inspector is shown.
#[derive(Clone, Copy, Debug, PartialEq, Eq, Hash, Structural)]
pub enum InspectorState {
    Enabled,
    Disabled,
}

impl Default for InspectorState {
    /// The inspector starts hidden.
    fn default() -> (s: InspectorState)
        ensures
            s == InspectorState::Disabled,
    {
        InspectorState::Disabled
    }
}

impl InspectorState {
    /// The other state.
    pub fn toggled(self) -> (s: InspectorState)
        ensures
            s == (match self {
                InspectorState::Enabled => InspectorState::Disabled,
                InspectorState::Disabled => InspectorState::Enabled,
            }),
    {
        match self {
            InspectorState::Enabled => InspectorState::Disabled,
            InspectorState::Disabled => InspectorState::Enabled,
        }
    }
}

/// The state to enter when the pause key has or has not just been pressed:
/// the other state on a press, none otherwise.
pub fn handle_actions(just_pressed: bool, current: GameState) -> (next: Option<GameState>)
    ensures
        next == (if just_pressed { Some(toggle_state(current)) } else { None::<GameState> }),
{
    if just_pressed {
        Some(current.toggled())
    } else {
        None
    }
}

/// A switch after the toggle key has or has not just been pressed.
pub fn toggle_on_press(just_pressed: bool, enabled: bool) -> (now: bool)
    ensures
        now == (just_pressed != enabled),
{
    if just_pressed {
        !enabled
    } else {
        enabled
    }
}

/// A key as the keyboard reports it in one frame.
#[derive(Clone, Copy, Debug, PartialEq, Eq, Structural)]
pub struct KeyState {
    /// The key is down.
    pub pressed: bool,
    /// The key went down in this frame.
    pub just_pressed: bool,
}

/// Whether a chord of two keys has just been pressed: both are down, and one
/// of them went down in this frame.
pub fn chord_just_pressed(first: KeyState, second: KeyState) -> (now: bool)
    ensures
        now == (first.pressed && second.pressed && (first.just_pressed || second.just_pressed)),
{
    first.pressed && second.pressed && (first.just_pressed || second.just_pressed)
}

/// Which of the player's controls are off.
#[derive(Clone, Copy, Debug, PartialEq, Eq, Structural)]
pub struct ControlLocks {
    /// The player cannot walk.
    pub movement_disabled: bool,
    /// The camera does not follow the mouse.
    pub look_disabled: bool,
}

/// The locks to hold on entering `state`: all of them while paused, none
/// while active.
pub fn locks_on_enter(state: GameState) -> (locks: ControlLocks)
    ensures
        locks.movement_disabled == (state == GameState::Paused),
        locks.look_disabled == (state == GameState::Paused),
{
    match state {
        GameState::Paused => ControlLocks { movement_disabled: true, look_disabled: true },
        GameState::Active => ControlLocks { movement_disabled: false, look_disabled: false },
    }
}

/// Whether the physics clock runs in `state`.
pub fn physics_runs(state: GameState) -> (runs: bool)
    ensures
        runs == (state == GameState::Active),
{
    match state {
        GameState::Active => true,
        GameState::Paused => false,
    }
}

/// How the window fills the screen.
#[derive(Clone, Copy, Debug, PartialEq, Eq, Structural)]
pub enum ScreenMode {
    Windowed,
    BorderlessFullscreen,
    Fullscreen,
}

impl ScreenMode {
    /// The mode after the fullscreen key: fullscreen from a window, a window
    /// from either fullscreen mode.
    pub fn toggled(self) -> (mode: ScreenMode)
        ensures
            mode == (if self == ScreenMode::Windowed {
                ScreenMode::Fullscreen
            } else {
                ScreenMode::Windowed
            }),
    {
        match self {
            ScreenMode::Windowed => ScreenMode::Fullscreen,
            ScreenMode::BorderlessFullscreen => ScreenMode::Windowed,
            ScreenMode::Fullscreen => ScreenMode::Windowed,
        }
    }
}

/// What becomes of the mouse cursor.
#[derive(Clone, Copy, Debug, PartialEq, Eq, Structural)]
pub struct CursorPolicy {
    /// The cursor is confined to the window.
    pub locked: bool,
    /// The cursor is drawn.
    pub visible: bool,
}

/// The cursor on entering `state`: locked and hidden while active, free and
/// visible while paused.
pub fn cursor_on_enter(state: GameState) -> (cursor: CursorPolicy)
    ensures
        cursor.locked == (state == GameState::Active),
        cursor.visible == (state == GameState::Paused),
{
    match state {
        GameState::Active => CursorPolicy { locked: true, visible: false },
        GameState::Paused => CursorPolicy { locked: false, visible: true },
    }
}

/// Pausing and resuming bring the scene back to where it was.
pub proof fn lemma_toggle_twice(s: GameState)
    ensures
        toggle_state(toggle_state(s)) == s,
{
}

/// The other state of `s`.
pub open spec fn toggle_state(s: GameState) -> GameState {
    match s {
        GameState::Active => GameState::Paused,
        GameState::Paused => GameState::Active,
    }
}

} // verus!
