//! Value types of the grid world: positions, grid sizes, directions,
//! ticks, food and power-up descriptions.

use vstd::prelude::*;

verus! {

/// A cell of the grid, in signed coordinates.
#[derive(Clone, Copy, Debug, PartialEq, Eq, Structural)]
pub struct Position {
    pub x: i32,
    pub y: i32,
}

/// The dimensions of the playing field.  A valid grid has `w > 0` and
/// `h > 0`; the settings component is responsible for enforcing that.
#[derive(Clone, Copy, Debug, PartialEq, Eq, Structural)]
pub struct GridSize {
    pub w: i32,
    pub h: i32,
}

/// A movement direction.  `Up` decreases `y`, `Down` increases `y`,
/// `Left` decreases `x`, `Right` increases `x`.
#[derive(Clone, Copy, Debug, PartialEq, Eq, Structural)]
pub enum Direction {
    Up,
    Down,
    Left,
    Right,
}

/// An opaque, monotonically increasing time counter supplied by the
/// embedding application; the core never interprets its value.
#[derive(Clone, Copy, Debug, PartialEq, Eq, Structural)]
pub struct Tick(pub u64);

/// The kind of a food item in multi-food mode.
#[derive(Clone, Copy, Debug, PartialEq, Eq, Structural)]
pub enum FoodType {
    Normal,
    Golden,
    Special,
}

/// A food item on the grid (multi-food mode).
#[derive(Clone, Copy, Debug, PartialEq, Eq, Structural)]
pub struct Food {
    pub position: Position,
    pub food_type: FoodType,
}

/// The kind of a power-up.
#[derive(Clone, Copy, Debug, PartialEq, Eq, Structural)]
pub enum PowerUpType {
    /// Halves the effective speed: every other step is skipped.
    Slow,
    /// Doubles the effective speed: the loop steps twice per update.
    Fast,
    /// Shrinks the snake by one segment on pickup, never below length 1.
    Poison,
}

/// A power-up lying on the grid.
#[derive(Clone, Copy, Debug, PartialEq, Eq, Structural)]
pub struct PowerUp {
    pub position: Position,
    pub power_type: PowerUpType,
    /// Number of ticks the effect lasts once collected.
    pub remaining_duration: u32,
}

/// Horizontal displacement of one move in direction `d`.
pub open spec fn dir_dx(d: Direction) -> int {
    match d {
        Direction::Left => -1,
        Direction::Right => 1,
        Direction::Up => 0,
        Direction::Down => 0,
    }
}

/// Vertical displacement of one move in direction `d`.
pub open spec fn dir_dy(d: Direction) -> int {
    match d {
        Direction::Up => -1,
        Direction::Down => 1,
        Direction::Left => 0,
        Direction::Right => 0,
    }
}

/// Whether `p` lies on the grid `g`.
pub open spec fn pos_in_grid(p: Position, g: GridSize) -> bool {
    &&& 0 <= p.x < g.w
    &&& 0 <= p.y < g.h
}

/// Points awarded for eating a food of kind `t`.
pub open spec fn spec_point_value(t: FoodType) -> u32 {
    match t {
        FoodType::Normal => 1u32,
        FoodType::Golden => 5u32,
        FoodType::Special => 10u32,
    }
}

/// Duration a freshly collected power-up of kind `t` stays active.
pub open spec fn spec_initial_duration(t: PowerUpType) -> u32 {
    match t {
        PowerUpType::Slow => 20u32,
        PowerUpType::Fast => 15u32,
        PowerUpType::Poison => 0u32,
    }
}

impl FoodType {
    /// Points awarded for eating a food of this kind: 1 for `Normal`,
    /// 5 for `Golden`, 10 for `Special`.
    pub fn point_value(&self) -> (v: u32)
        ensures
            v == spec_point_value(*self),
    {
        match self {
            FoodType::Normal => 1,
            FoodType::Golden => 5,
            FoodType::Special => 10,
        }
    }
}

impl PowerUp {
    /// Initial duration for each power-up type: `Slow` lasts 20 ticks,
    /// `Fast` 15 ticks, and `Poison` applies immediately with no duration.
    pub fn initial_duration(&self) -> (d: u32)
        ensures
            d == spec_initial_duration(self.power_type),
    {
        match self.power_type {
            PowerUpType::Slow => 20,
            PowerUpType::Fast => 15,
            PowerUpType::Poison => 0,
        }
    }
}

} // verus!
