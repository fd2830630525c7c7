//! Ports and the game loop: the `Input` and `Time` ports are implemented
//! by the embedding application (or by test doubles), and [`Loop`] ties
//! them to the rule engine.
//!
//! One loop update latches the requested direction, runs the power-up
//! timer, attempts one power-up spawn, invokes the rule engine once — or
//! twice while a `Fast` effect is active — and advances the tick counter.

use vstd::prelude::*;
use crate::rng::RngLike;
use crate::rules::{step, step_post, step_req, try_spawn_post, try_spawn_powerup};
use crate::rules::lemma_step_preserves_invariants;
use crate::state::{GameState, Snake};
use crate::types::{Direction, PowerUpType, Tick};

verus! {

/// Input port: supplies the direction the snake should head in.  The
/// port, not the rule engine, is responsible for rejecting 180-degree
/// reversals before a direction is latched.
pub trait Input {
    fn current_dir(&self) -> Direction;
}

/// Time port: an opaque tick counter, advanced once per loop update.
pub trait Time {
    fn tick(&mut self) -> Tick;
}

/// The active effect after its remaining duration lost one tick: an
/// effect at one tick or less expires.
pub open spec fn decremented_active(a: Option<(PowerUpType, u32)>) -> Option<(PowerUpType, u32)> {
    match a {
        Some(p) => if p.1 <= 1 {
            None
        } else {
            Some((p.0, (p.1 - 1) as u32))
        },
        None => None,
    }
}

/// The skip counter after the timer ran: it is cleared exactly when the
/// active effect expires.
pub open spec fn counter_after_timer(a: Option<(PowerUpType, u32)>, c: u32) -> u32 {
    match a {
        Some(p) => if p.1 <= 1 {
            0u32
        } else {
            c
        },
        None => c,
    }
}

/// The state after the bookkeeping at the head of a loop update: the
/// direction `d` is latched and, with power-ups enabled, the active
/// effect's duration loses one tick.
pub open spec fn bookkeeping_done(pre: GameState, d: Direction) -> GameState {
    let g1 = GameState { snake: (Snake { body: pre.snake.body, dir: d }), ..pre };
    if pre.mode.powerups {
        GameState {
            active_powerup: decremented_active(g1.active_powerup),
            slow_skip_counter: counter_after_timer(g1.active_powerup, g1.slow_skip_counter),
            ..g1
        }
    } else {
        g1
    }
}

/// Whether a `Fast` effect drives the loop to step twice.
pub open spec fn fast_is_active(g: GameState) -> bool {
    &&& g.mode.powerups
    &&& match g.active_powerup {
        Some(a) => a.0 is Fast,
        None => false,
    }
}

/// Room a loop update needs: up to two steps, each of which may grow
/// the snake by one cell.
pub open spec fn update_room(g: GameState) -> bool {
    if g.mode.multiple_foods {
        g.snake.body@.len() + g.foods@.len() + 2 <= g.grid.w * g.grid.h
    } else {
        g.snake.body@.len() + 3 <= g.grid.w * g.grid.h
    }
}

/// What a loop update requires of the state: well-formedness, headroom
/// on score and skip counter for two steps, and placement room while
/// the session runs.
pub open spec fn update_req(g: GameState) -> bool {
    &&& g.grid_ok()
    &&& g.snake_ok()
    &&& g.slow_skip_counter + 2 <= u32::MAX
    &&& g.score + 20 <= u32::MAX
    &&& (g.run_state is Running ==> update_room(g))
}

/// The transition relation of one loop update: after the bookkeeping
/// with the latched direction, a power-up spawn attempt and then one
/// step — or two while `Fast` is active — lead to the final state.
pub open spec fn update_post(pre: GameState, post: GameState) -> bool {
    ||| exists|mid: GameState|
        {
            &&& #[trigger] try_spawn_post(bookkeeping_done(pre, post.snake.dir), mid)
            &&& !fast_is_active(mid)
            &&& step_post(mid, post)
        }
    ||| exists|mid: GameState, between: GameState|
        #![trigger try_spawn_post(bookkeeping_done(pre, post.snake.dir), mid), step_post(mid, between)]
        {
            &&& try_spawn_post(bookkeeping_done(pre, post.snake.dir), mid)
            &&& fast_is_active(mid)
            &&& step_post(mid, between)
            &&& step_post(between, post)
        }
}

/// Game loop that combines Input, Time, and RNG to update game state.
pub struct Loop<S: Input, T: Time, R: RngLike> {
    pub input: S,
    pub time: T,
    pub rng: R,
}

impl<S: Input, T: Time, R: RngLike> Loop<S, T, R> {
    /// One tick of the game: latches the input direction, updates the
    /// power-up timer, attempts a power-up spawn, steps the rule engine
    /// (twice under a `Fast` effect) and advances the time port.  The
    /// input port is only read, never changed; and with power-ups
    /// disabled, a tick of a session that is not running consumes
    /// nothing from the generator.
    pub fn update(&mut self, g: &mut GameState)
        requires
            update_req(*old(g)),
        ensures
            update_post(*old(g), *final(g)),
            final(self).input == old(self).input,
            !old(g).mode.powerups && !(old(g).run_state is Running) ==> final(self).rng
                == old(self).rng,
    {
        let ghost pre = *old(g);
        g.snake.dir = self.input.current_dir();
        let ghost d = g.snake.dir;

        if g.mode.powerups {
            update_powerup_effects(g);
        }
        proof {
            assert(*g == bookkeeping_done(pre, d));
        }

        try_spawn_powerup(g, &mut self.rng);
        let ghost mid = *g;

        let fast = g.mode.powerups && matches!(g.active_powerup, Some((PowerUpType::Fast, _)));
        proof {
            assert(step_req(mid));
        }
        if fast {
            step(g, &mut self.rng);
            let ghost between = *g;
            proof {
                lemma_step_preserves_invariants(mid, between);
            }
            step(g, &mut self.rng);
            proof {
                lemma_step_preserves_invariants(between, *g);
                assert(g.snake.dir == d);
                assert(try_spawn_post(bookkeeping_done(pre, g.snake.dir), mid));
                assert(update_post(pre, *g));
            }
        } else {
            step(g, &mut self.rng);
            proof {
                lemma_step_preserves_invariants(mid, *g);
                assert(g.snake.dir == d);
                assert(try_spawn_post(bookkeeping_done(pre, g.snake.dir), mid));
                assert(update_post(pre, *g));
            }
        }

        let _ = self.time.tick();
    }
}

/// Runs the power-up timer once: the active effect loses one tick of
/// duration and expires when none is left, which also clears the skip
/// counter.
fn update_powerup_effects(g: &mut GameState)
    ensures
        *final(g) == (GameState {
            active_powerup: decremented_active(old(g).active_powerup),
            slow_skip_counter: counter_after_timer(
                old(g).active_powerup,
                old(g).slow_skip_counter,
            ),
            ..*old(g)
        }),
{
    if let Some(a) = g.active_powerup {
        let (t, duration) = a;
        let nd: u32 = if duration > 0 {
            duration - 1
        } else {
            0
        };
        if nd == 0 {
            g.active_powerup = None;
            g.slow_skip_counter = 0;
        } else {
            g.active_powerup = Some((t, nd));
        }
    }
}

/// Pause law: a paused session is not moved by a loop update — the
/// snake, the food supply, the score and the phase are all unchanged;
/// only the latched direction, the power-up timer and a possible fresh
/// power-up on the grid may differ.
pub proof fn lemma_update_paused_blocks_movement(pre: GameState, post: GameState)
    requires
        update_post(pre, post),
        pre.run_state is Paused,
    ensures
        post.snake.body@ == pre.snake.body@,
        post.score == pre.score,
        post.run_state is Paused,
        post.food == pre.food,
        post.foods@ == pre.foods@,
{
    let booked = bookkeeping_done(pre, post.snake.dir);
    if exists|mid: GameState|
        {
            &&& #[trigger] try_spawn_post(booked, mid)
            &&& !fast_is_active(mid)
            &&& step_post(mid, post)
        } {
        let mid = choose|mid: GameState|
            {
                &&& #[trigger] try_spawn_post(booked, mid)
                &&& !fast_is_active(mid)
                &&& step_post(mid, post)
            };
        assert(post == mid);
    } else {
        let (mid, between) = choose|mid: GameState, between: GameState|
            #![trigger try_spawn_post(booked, mid), step_post(mid, between)]
            {
                &&& try_spawn_post(booked, mid)
                &&& fast_is_active(mid)
                &&& step_post(mid, between)
                &&& step_post(between, post)
            };
        assert(between == mid);
        assert(post == between);
    }
}

} // verus!
