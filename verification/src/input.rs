//! Input adapter: latches direction requests for the game loop.
//!
//! A 180-degree reversal relative to the last settled direction would
//! drive the head straight into the neck, so such requests are rejected
//! here, before the direction reaches the rule engine.  The embedding
//! application translates keyboard events into requests and hands them
//! to [`EguiInput::request`].

use vstd::prelude::*;
use crate::systems::Input;
use crate::types::Direction;

verus! {

/// Whether two directions are 180 degrees apart.
pub open spec fn spec_is_opposite(a: Direction, b: Direction) -> bool {
    match (a, b) {
        (Direction::Up, Direction::Down) => true,
        (Direction::Down, Direction::Up) => true,
        (Direction::Left, Direction::Right) => true,
        (Direction::Right, Direction::Left) => true,
        _ => false,
    }
}

/// Input adapter that tracks keyboard-driven direction requests.
#[derive(Clone, Copy)]
pub struct EguiInput {
    current_dir: Direction,
    last_settled_dir: Direction,
}

impl EguiInput {
    /// The direction that will be handed to the game loop.
    pub closed spec fn spec_current(self) -> Direction {
        self.current_dir
    }

    /// The direction the snake last actually moved in.
    pub closed spec fn spec_settled(self) -> Direction {
        self.last_settled_dir
    }

    pub fn new(initial_dir: Direction) -> (r: Self)
        ensures
            r.spec_current() == initial_dir,
            r.spec_settled() == initial_dir,
    {
        EguiInput { current_dir: initial_dir, last_settled_dir: initial_dir }
    }

    /// Latches a requested direction; a request that would reverse the
    /// last settled direction is ignored, so the latched direction is
    /// never opposite to the settled one unless it already was.
    pub fn request(&mut self, requested: Option<Direction>)
        ensures
            final(self).spec_settled() == old(self).spec_settled(),
            final(self).spec_current() == match requested {
                Some(d) => if spec_is_opposite(d, old(self).spec_settled()) {
                    old(self).spec_current()
                } else {
                    d
                },
                None => old(self).spec_current(),
            },
    {
        if let Some(dir) = requested {
            if !self.is_opposite(dir, self.last_settled_dir) {
                self.current_dir = dir;
            }
        }
    }

    /// Marks the current direction as settled; called after each game
    /// step, so that the next request is measured against the direction
    /// actually moved in.
    pub fn settle(&mut self)
        ensures
            final(self).spec_current() == old(self).spec_current(),
            final(self).spec_settled() == old(self).spec_current(),
    {
        self.last_settled_dir = self.current_dir;
    }

    fn is_opposite(&self, dir1: Direction, dir2: Direction) -> (b: bool)
        ensures
            b == spec_is_opposite(dir1, dir2),
    {
        matches!(
            (dir1, dir2),
            (Direction::Up, Direction::Down)
                | (Direction::Down, Direction::Up)
                | (Direction::Left, Direction::Right)
                | (Direction::Right, Direction::Left)
        )
    }
}

impl Input for EguiInput {
    fn current_dir(&self) -> Direction {
        self.current_dir
    }
}

} // verus!
