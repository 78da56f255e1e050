//! The game clock: the user's speed and pause settings, forced pauses while
//! dialogs are open, and the in-game calendar.
//!
//! Dates are day numbers in the proleptic Gregorian calendar, day 1 being
//! 1 January of year 1 (the numbering of `chrono`'s `num_days_from_ce`).
use vstd::prelude::*;

verus! {

/// The first day of a new game: 15 April 2026.
pub const START_DATE: i32 = 739_721;

/// The last day that the calendar can hold: 31 December 262142.
pub const MAX_DATE: i32 = 95_745_399;

/// The current in-game date.
#[derive(Debug, Clone, Copy, PartialEq, Eq, Structural)]
pub struct GameDate(pub i32);

impl Default for GameDate {
    fn default() -> (r: Self)
        ensures
            r.0 == START_DATE,
    {
        GameDate(START_DATE)
    }
}

impl GameDate {
    /// The number of days since the game started; a date before the start
    /// wraps around as the cast of a negative number to `usize` does.
    pub fn days_since_start(&self) -> (r: usize)
        ensures
            r == (self.0 - START_DATE) as usize,
    {
        let d: i64 = self.0 as i64 - START_DATE as i64;
        d as usize
    }
}

/// The date on which something timed runs out.
#[derive(Debug, Clone, Copy, PartialEq, Eq, Structural)]
pub struct EndDate(pub i32);

impl EndDate {
    /// The date `duration` days after `current`.
    pub fn new(current: i32, duration: u32) -> (r: Self)
        requires
            current + duration <= MAX_DATE,
        ensures
            r.0 == current + duration,
    {
        let end: i64 = current as i64 + duration as i64;
        EndDate(end as i32)
    }
}

/// The calendar advances by one day per game tick.
pub fn fixed_pre_update(date: &mut GameDate)
    requires
        old(date).0 < MAX_DATE,
    ensures
        final(date).0 == old(date).0 + 1,
{
    date.0 = date.0 + 1;
}

/// The speeds at which the game can run.
#[derive(Debug, Clone, Copy, PartialEq, Eq, Structural)]
pub enum GameSpeed {
    Normal,
    Fast,
    Faster,
}

impl Default for GameSpeed {
    fn default() -> (r: Self)
        ensures
            r == GameSpeed::Normal,
    {
        GameSpeed::Normal
    }
}

/// How many game ticks a speed runs per tick of real time.
pub open spec fn speed_factor(s: GameSpeed) -> u32 {
    match s {
        GameSpeed::Normal => 1,
        GameSpeed::Fast => 2,
        GameSpeed::Faster => 5,
    }
}

impl GameSpeed {
    /// The factor by which this speed runs the clock faster than real time.
    pub fn factor(self) -> (r: u32)
        ensures
            r == speed_factor(self),
    {
        match self {
            GameSpeed::Normal => 1,
            GameSpeed::Fast => 2,
            GameSpeed::Faster => 5,
        }
    }
}

/// A request to change the game speed, from a key press or a button.
#[derive(Debug, Clone, Copy, PartialEq, Eq, Structural)]
pub enum GameSpeedAction {
    SetSpeed(GameSpeed),
    TogglePause,
}

/// The source of truth for the game speed; the clock's state is derived from it.
#[derive(Debug, Clone, Copy, PartialEq, Eq, Structural)]
pub struct CurrentGameSpeed {
    /// Whether some dialog forces the clock to pause. Distinct from `paused`,
    /// which is the user's own setting, kept for when the forced pause ends.
    pub forced_paused: bool,
    /// Whether the user elected to pause the game.
    pub paused: bool,
    /// The speed to run at when not paused.
    pub speed: GameSpeed,
}

impl Default for CurrentGameSpeed {
    fn default() -> (r: Self)
        ensures
            r == (CurrentGameSpeed { forced_paused: false, paused: false, speed: GameSpeed::Normal }),
    {
        CurrentGameSpeed { forced_paused: false, paused: false, speed: GameSpeed::Normal }
    }
}

/// What to do to the clock after an event: the relative speed to set, if any,
/// and whether to pause (`Some(true)`) or unpause (`Some(false)`) it.
#[derive(Debug, Clone, Copy, PartialEq, Eq, Structural)]
pub struct ClockChange {
    pub set_speed: Option<GameSpeed>,
    pub pause: Option<bool>,
}

/// Whether the clock is paused after `change`, given whether it was paused before.
pub open spec fn clock_paused_after(clock_paused: bool, change: ClockChange) -> bool {
    match change.pause {
        Some(p) => p,
        None => clock_paused,
    }
}

/// The clock is paused exactly when the user paused the game or a pause is forced.
pub open spec fn clock_consistent(s: CurrentGameSpeed, clock_paused: bool) -> bool {
    clock_paused == (s.paused || s.forced_paused)
}

/// The result of a speed change requested by the user or the interface.
pub open spec fn speed_changed(s: CurrentGameSpeed, action: GameSpeedAction) -> (
    CurrentGameSpeed,
    ClockChange,
) {
    match action {
        GameSpeedAction::SetSpeed(speed) => (
            CurrentGameSpeed { forced_paused: s.forced_paused, paused: false, speed },
            ClockChange {
                set_speed: Some(speed),
                pause: if s.forced_paused {
                    None
                } else {
                    Some(false)
                },
            },
        ),
        GameSpeedAction::TogglePause => (
            CurrentGameSpeed { paused: !s.paused, ..s },
            ClockChange {
                set_speed: None,
                pause: if s.paused {
                    if s.forced_paused {
                        None
                    } else {
                        Some(false)
                    }
                } else {
                    Some(true)
                },
            },
        ),
    }
}


/// A speed request sets the stored speed to the one asked for and unpauses
/// the user's setting, whether or not the game was paused; toggling the
/// pause keeps the speed and flips only the user's pause. Neither touches a
/// forced pause.
pub proof fn lemma_speed_request_effects(s: CurrentGameSpeed, action: GameSpeedAction)
    ensures
        action matches GameSpeedAction::SetSpeed(x) ==> speed_changed(s, action).0.speed == x
            && !speed_changed(s, action).0.paused && speed_changed(s, action).0.forced_paused
            == s.forced_paused && speed_changed(s, action).1.set_speed == Some(x),
        action is TogglePause ==> speed_changed(s, action).0.speed == s.speed && speed_changed(
            s,
            action,
        ).0.paused == !s.paused && speed_changed(s, action).0.forced_paused == s.forced_paused
            && speed_changed(s, action).1.set_speed is None,
{
}

/// Processes a game speed request: setting a speed unpauses the game (though a
/// forced pause keeps the clock stopped); toggling flips the user's pause.
pub fn on_game_speed_changed(current: CurrentGameSpeed, action: GameSpeedAction) -> (r: (
    CurrentGameSpeed,
    ClockChange,
))
    ensures
        r == speed_changed(current, action),
        action matches GameSpeedAction::SetSpeed(x) ==> r.0.speed == x && !r.0.paused
            && r.0.forced_paused == current.forced_paused && r.1.set_speed == Some(x),
        action is TogglePause ==> r.0.speed == current.speed && r.0.paused == !current.paused
            && r.0.forced_paused == current.forced_paused && r.1.set_speed is None,
{
    proof {
        lemma_speed_request_effects(current, action);
    }
    match action {
        GameSpeedAction::SetSpeed(speed) => {
            let pause = if !current.forced_paused {
                Some(false)
            } else {
                None
            };
            (
                CurrentGameSpeed { forced_paused: current.forced_paused, paused: false, speed },
                ClockChange { set_speed: Some(speed), pause },
            )
        },
        GameSpeedAction::TogglePause => {
            let pause = if current.paused {
                if !current.forced_paused {
                    Some(false)
                } else {
                    None
                }
            } else {
                Some(true)
            };
            (
                CurrentGameSpeed {
                    forced_paused: current.forced_paused,
                    paused: !current.paused,
                    speed: current.speed,
                },
                ClockChange { set_speed: None, pause },
            )
        },
    }
}

/// A forced pause begins: the clock stops if it was running.
pub fn on_force_pause_insert(current: CurrentGameSpeed, clock_paused: bool) -> (r: (
    CurrentGameSpeed,
    ClockChange,
))
    ensures
        r.0 == (CurrentGameSpeed { forced_paused: true, ..current }),
        r.1 == (ClockChange {
            set_speed: None,
            pause: if clock_paused {
                None
            } else {
                Some(true)
            },
        }),
{
    let pause = if !clock_paused {
        Some(true)
    } else {
        None
    };
    (
        CurrentGameSpeed { forced_paused: true, paused: current.paused, speed: current.speed },
        ClockChange { set_speed: None, pause },
    )
}

/// A forced pause ends; `force_pause_count` counts the forced pauses still in
/// place, the ending one included. Only when the last one ends does the clock
/// return to the user's setting.
pub fn on_force_pause_remove(current: CurrentGameSpeed, force_pause_count: usize) -> (r: (
    CurrentGameSpeed,
    ClockChange,
))
    ensures
        force_pause_count == 1 ==> r.0 == (CurrentGameSpeed { forced_paused: false, ..current })
            && r.1 == (ClockChange {
            set_speed: None,
            pause: if current.paused {
                None
            } else {
                Some(false)
            },
        }),
        force_pause_count != 1 ==> r.0 == current && r.1 == (ClockChange {
            set_speed: None,
            pause: None,
        }),
{
    if force_pause_count == 1 {
        let pause = if !current.paused {
            Some(false)
        } else {
            None
        };
        (
            CurrentGameSpeed { forced_paused: false, paused: current.paused, speed: current.speed },
            ClockChange { set_speed: None, pause },
        )
    } else {
        (current, ClockChange { set_speed: None, pause: None })
    }
}

/// The speed request of the keys pressed this frame, keys 1, 2, 3 and space
/// in that order of precedence.
pub fn listen_speed_keys(digit1: bool, digit2: bool, digit3: bool, space: bool) -> (r: Option<
    GameSpeedAction,
>)
    ensures
        r == if digit1 {
            Some(GameSpeedAction::SetSpeed(GameSpeed::Normal))
        } else if digit2 {
            Some(GameSpeedAction::SetSpeed(GameSpeed::Fast))
        } else if digit3 {
            Some(GameSpeedAction::SetSpeed(GameSpeed::Faster))
        } else if space {
            Some(GameSpeedAction::TogglePause)
        } else {
            None
        },
{
    if digit1 {
        Some(GameSpeedAction::SetSpeed(GameSpeed::Normal))
    } else if digit2 {
        Some(GameSpeedAction::SetSpeed(GameSpeed::Fast))
    } else if digit3 {
        Some(GameSpeedAction::SetSpeed(GameSpeed::Faster))
    } else if space {
        Some(GameSpeedAction::TogglePause)
    } else {
        None
    }
}

/// Whether the speed button for `action` shows as active: the pause button
/// while the user has paused, the button of the current speed otherwise.
pub fn is_speed_button_active(current: CurrentGameSpeed, action: GameSpeedAction) -> (r: bool)
    ensures
        r == (action == GameSpeedAction::TogglePause && current.paused || action
            == GameSpeedAction::SetSpeed(current.speed) && !current.paused),
{
    match action {
        GameSpeedAction::TogglePause => current.paused,
        GameSpeedAction::SetSpeed(s) => s == current.speed && !current.paused,
    }
}

/// A new game starts unpaused at normal speed, with a running clock, which
/// agrees with the speed settings.
pub proof fn lemma_default_is_consistent()
    ensures
        clock_consistent(
            CurrentGameSpeed { forced_paused: false, paused: false, speed: GameSpeed::Normal },
            false,
        ),
{
}

/// Every speed request keeps the clock paused exactly when the user paused or
/// a pause is forced.
pub proof fn lemma_speed_change_keeps_clock_consistent(
    s: CurrentGameSpeed,
    clock_paused: bool,
    action: GameSpeedAction,
)
    requires
        clock_consistent(s, clock_paused),
    ensures
        clock_consistent(
            speed_changed(s, action).0,
            clock_paused_after(clock_paused, speed_changed(s, action).1),
        ),
{
}

/// Starting a forced pause keeps the clock consistent with the settings.
pub proof fn lemma_force_pause_insert_keeps_clock_consistent(
    s: CurrentGameSpeed,
    clock_paused: bool,
)
    requires
        clock_consistent(s, clock_paused),
    ensures
        clock_consistent(
            CurrentGameSpeed { forced_paused: true, ..s },
            clock_paused_after(
                clock_paused,
                ClockChange {
                    set_speed: None,
                    pause: if clock_paused {
                        None
                    } else {
                        Some(true)
                    },
                },
            ),
        ),
{
}

/// Ending a forced pause keeps the clock consistent with the settings, as long
/// as the forced flag was set exactly while some forced pause was in place.
pub proof fn lemma_force_pause_remove_keeps_clock_consistent(
    s: CurrentGameSpeed,
    clock_paused: bool,
    force_pause_count: usize,
)
    requires
        clock_consistent(s, clock_paused),
        force_pause_count >= 1,
        s.forced_paused,
    ensures
        ({
            let (t, c) = if force_pause_count == 1 {
                (
                    CurrentGameSpeed { forced_paused: false, ..s },
                    ClockChange {
                        set_speed: None,
                        pause: if s.paused {
                            None
                        } else {
                            Some(false)
                        },
                    },
                )
            } else {
                (s, ClockChange { set_speed: None, pause: None })
            };
            clock_consistent(t, clock_paused_after(clock_paused, c)) && t.forced_paused == (
            force_pause_count - 1 > 0)
        }),
{
}

/// While a pause is forced, no speed request starts the clock.
pub proof fn lemma_forced_pause_holds(s: CurrentGameSpeed, action: GameSpeedAction)
    requires
        s.forced_paused,
    ensures
        speed_changed(s, action).1.pause != Some(false),
        speed_changed(s, action).0.forced_paused,
{
}

/// Toggling the pause twice gives back the user's original settings.
pub proof fn lemma_toggle_pause_twice(s: CurrentGameSpeed)
    ensures
        speed_changed(
            speed_changed(s, GameSpeedAction::TogglePause).0,
            GameSpeedAction::TogglePause,
        ).0 == s,
{
}

} // verus!
