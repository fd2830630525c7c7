//! User-facing settings: grid dimensions and game speed, with the
//! validation the core relies on, and a small in-memory store.

use vstd::prelude::*;
use crate::rng::RngLike;
use crate::state::{GameMode, GameState};
use crate::types::GridSize;

verus! {

#[derive(Clone, Copy, Debug, PartialEq, Eq, Structural)]
pub struct Settings {
    pub grid: GridSize,
    /// Logical speed in ticks per second.
    pub speed: u32,
}

#[derive(Clone, Debug, PartialEq, Eq, Structural)]
pub enum SettingsError {
    InvalidGridWidth(i32),
    InvalidGridHeight(i32),
    InvalidSpeed(u32),
}

/// The validation rule: positive grid dimensions and a speed between 1
/// and 60 ticks per second, with the first violated rule reported.
pub open spec fn spec_validate(s: Settings) -> Result<(), SettingsError> {
    if s.grid.w <= 0 {
        Err(SettingsError::InvalidGridWidth(s.grid.w))
    } else if s.grid.h <= 0 {
        Err(SettingsError::InvalidGridHeight(s.grid.h))
    } else if s.speed == 0 || s.speed > 60 {
        Err(SettingsError::InvalidSpeed(s.speed))
    } else {
        Ok(())
    }
}

/// Whether the settings pass validation.
pub open spec fn spec_valid(s: Settings) -> bool {
    spec_validate(s) is Ok
}

impl Default for Settings {
    /// The out-of-the-box settings: a 10 by 10 grid at speed 10.
    fn default() -> (s: Self)
        ensures
            s == (Settings { grid: GridSize { w: 10, h: 10 }, speed: 10 }),
    {
        Settings { grid: GridSize { w: 10, h: 10 }, speed: 10 }
    }
}

impl Settings {
    /// Validated construction: the candidate is returned exactly when it
    /// passes validation, else the first violated rule.
    pub fn new(grid: GridSize, speed: u32) -> (r: Result<Self, SettingsError>)
        ensures
            r == match spec_validate(Settings { grid, speed }) {
                Ok(()) => Ok::<Settings, SettingsError>(Settings { grid, speed }),
                Err(e) => Err(e),
            },
    {
        let candidate = Settings { grid, speed };
        match candidate.validate() {
            Ok(()) => Ok(candidate),
            Err(e) => Err(e),
        }
    }

    /// Checks the validation rule; `Ok` exactly on valid settings.
    pub fn validate(&self) -> (r: Result<(), SettingsError>)
        ensures
            r == spec_validate(*self),
    {
        if self.grid.w <= 0 {
            return Err(SettingsError::InvalidGridWidth(self.grid.w));
        }
        if self.grid.h <= 0 {
            return Err(SettingsError::InvalidGridHeight(self.grid.h));
        }
        if self.speed == 0 || self.speed > 60 {
            return Err(SettingsError::InvalidSpeed(self.speed));
        }
        Ok(())
    }

    /// Replaces the grid, revalidating the whole candidate.
    pub fn with_grid(self, grid: GridSize) -> (r: Result<Self, SettingsError>)
        ensures
            r == match spec_validate(Settings { grid, ..self }) {
                Ok(()) => Ok::<Settings, SettingsError>(Settings { grid, ..self }),
                Err(e) => Err(e),
            },
    {
        let candidate = Settings { grid, speed: self.speed };
        match candidate.validate() {
            Ok(()) => Ok(candidate),
            Err(e) => Err(e),
        }
    }

    /// Replaces the speed, revalidating the whole candidate.
    pub fn with_speed(self, speed: u32) -> (r: Result<Self, SettingsError>)
        ensures
            r == match spec_validate(Settings { speed, ..self }) {
                Ok(()) => Ok::<Settings, SettingsError>(Settings { speed, ..self }),
                Err(e) => Err(e),
            },
    {
        let candidate = Settings { grid: self.grid, speed };
        match candidate.validate() {
            Ok(()) => Ok(candidate),
            Err(e) => Err(e),
        }
    }

    /// Starts a fresh classic game on this grid.  Constructors are
    /// expected to have enforced validation; a one-cell grid is further
    /// excluded because it leaves no cell for the food.
    pub fn apply_to_new_game<R: RngLike>(&self, rng: R) -> (g: GameState)
        requires
            spec_valid(*self),
            self.grid.w * self.grid.h >= 2,
        ensures
            g.freshly_initialized(
                self.grid,
                false,
                GameMode { multiple_foods: false, powerups: false },
            ),
    {
        GameState::new(self.grid, rng)
    }
}

/// In-memory store for the active settings; it only ever holds settings
/// that passed validation.
#[derive(Clone, Debug)]
pub struct SettingsStore {
    settings: Settings,
}

impl SettingsStore {
    /// The settings currently held.
    pub closed spec fn spec_settings(self) -> Settings {
        self.settings
    }

    /// Accepts only settings that pass validation.
    pub fn new(settings: Settings) -> (r: Result<Self, SettingsError>)
        ensures
            match r {
                Ok(st) => spec_valid(settings) && st.spec_settings() == settings,
                Err(e) => spec_validate(settings) == Err::<(), SettingsError>(e),
            },
    {
        match settings.validate() {
            Ok(()) => Ok(SettingsStore { settings }),
            Err(e) => Err(e),
        }
    }

    /// A store holding the out-of-the-box settings.
    pub fn default() -> (r: Self)
        ensures
            r.spec_settings() == (Settings { grid: GridSize { w: 10, h: 10 }, speed: 10 }),
    {
        SettingsStore { settings: Settings::default() }
    }

    pub fn get(&self) -> (s: Settings)
        ensures
            s == self.spec_settings(),
    {
        self.settings
    }

    /// Replaces the held settings when the new ones pass validation;
    /// otherwise reports the violated rule and keeps the old ones.
    pub fn update(&mut self, new_settings: Settings) -> (r: Result<(), SettingsError>)
        ensures
            match r {
                Ok(()) => spec_valid(new_settings) && final(self).spec_settings()
                    == new_settings,
                Err(e) => {
                    &&& spec_validate(new_settings) == Err::<(), SettingsError>(e)
                    &&& *final(self) == *old(self)
                },
            },
    {
        match new_settings.validate() {
            Ok(()) => {
                self.settings = new_settings;
                Ok(())
            },
            Err(e) => Err(e),
        }
    }
}

} // verus!
