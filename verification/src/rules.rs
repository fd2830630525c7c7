//! The rule engine: the step function that advances a game state by one
//! move, and the power-up spawner.
//!
//! The whole transition is specified by [`step_post`], a two-state
//! predicate relating the state before a step to the state after it.
//! Everything the random generator decides — where fresh food and
//! power-ups land — is pinned down only by its placement constraints;
//! every other field of the result is an exact function of the old state.

use vstd::prelude::*;
use vstd::arithmetic::div_mod::{
    lemma_fundamental_div_mod_converse, lemma_mod_division_less_than_divisor, lemma_small_mod,
};
use crate::rng::RngLike;
use crate::state::{
    foods_at, rem_euclid_i32, snake_contains, spawn_food, spawn_food_with_type, GameState,
    RunState, Snake,
};
use crate::types::{
    dir_dx, dir_dy, pos_in_grid, spec_initial_duration, spec_point_value, Direction, Food,
    GridSize, Position, PowerUp, PowerUpType,
};

verus! {

/// The head cell of the snake.
pub open spec fn head_of(g: GameState) -> Position {
    g.snake.body@[0]
}

/// The column the head is about to move to.
pub open spec fn target_x(g: GameState) -> int {
    head_of(g).x + dir_dx(g.snake.dir)
}

/// The row the head is about to move to.
pub open spec fn target_y(g: GameState) -> int {
    head_of(g).y + dir_dy(g.snake.dir)
}

/// Whether the move aims past an edge of the grid.
pub open spec fn target_out_of_bounds(g: GameState) -> bool {
    ||| target_x(g) < 0
    ||| target_y(g) < 0
    ||| target_x(g) >= g.grid.w
    ||| target_y(g) >= g.grid.h
}

/// The cell the head actually lands on: the target, wrapped to the
/// opposite edge when the topology is toroidal and the target is off
/// the grid.
pub open spec fn landing(g: GameState) -> Position {
    if target_out_of_bounds(g) && g.wrap_walls {
        Position {
            x: (target_x(g) % (g.grid.w as int)) as i32,
            y: (target_y(g) % (g.grid.h as int)) as i32,
        }
    } else {
        Position { x: target_x(g) as i32, y: target_y(g) as i32 }
    }
}

/// Whether a `Slow` effect is applied to the snake.
pub open spec fn slow_is_active(g: GameState) -> bool {
    &&& g.mode.powerups
    &&& match g.active_powerup {
        Some(a) => a.0 is Slow,
        None => false,
    }
}

/// Whether this step is swallowed by the `Slow` effect: the skip counter
/// is bumped and, on odd values, nothing else happens.
pub open spec fn step_skips(g: GameState) -> bool {
    slow_is_active(g) && (g.slow_skip_counter + 1) % 2 == 1
}

/// The skip counter after a non-swallowed step has passed the `Slow`
/// bookkeeping.
pub open spec fn counter_after_move(g: GameState) -> u32 {
    if slow_is_active(g) {
        (g.slow_skip_counter + 1) as u32
    } else {
        g.slow_skip_counter
    }
}

/// Whether the move runs into a wall that ends the game.
pub open spec fn hits_wall(g: GameState) -> bool {
    target_out_of_bounds(g) && !g.wrap_walls
}

/// Whether the landing cell is occupied by the snake itself.
pub open spec fn hits_self(g: GameState) -> bool {
    !hits_wall(g) && g.snake.body@.contains(landing(g))
}

/// The index of the first food at cell `p`, or `-1` if none is there.
pub open spec fn first_food_at(foods: Seq<Food>, p: Position) -> int
    decreases foods.len(),
{
    if foods.len() == 0 {
        -1
    } else if foods[0].position == p {
        0
    } else if first_food_at(foods.drop_first(), p) < 0 {
        -1
    } else {
        first_food_at(foods.drop_first(), p) + 1
    }
}

/// `first_food_at` finds exactly the first match: if the foods before
/// index `i` miss `p`, then `i` (a hit) or `-1` (no hit anywhere) is the
/// result.
pub proof fn lemma_first_food_at_prefix(foods: Seq<Food>, p: Position, i: int)
    requires
        0 <= i <= foods.len(),
        forall|j: int| 0 <= j < i ==> foods[j].position != p,
        i < foods.len() ==> foods[i].position == p,
    ensures
        i < foods.len() ==> first_food_at(foods, p) == i,
        i == foods.len() ==> first_food_at(foods, p) == -1,
    decreases foods.len(),
{
    if foods.len() == 0 {
    } else if foods[0].position == p {
    } else {
        let rest = foods.drop_first();
        assert(forall|j: int| 0 <= j < i - 1 ==> rest[j].position != p);
        lemma_first_food_at_prefix(rest, p, i - 1);
    }
}

/// A found index means a food sits at `p`, and conversely.
pub proof fn lemma_first_food_at_found(foods: Seq<Food>, p: Position)
    requires
        first_food_at(foods, p) >= 0,
    ensures
        0 <= first_food_at(foods, p) < foods.len(),
        foods[first_food_at(foods, p)].position == p,
    decreases foods.len(),
{
    if foods.len() == 0 {
    } else if foods[0].position == p {
    } else {
        lemma_first_food_at_found(foods.drop_first(), p);
    }
}

/// Where some food sits at `p`, `first_food_at` finds one.
pub proof fn lemma_first_food_at_some(foods: Seq<Food>, p: Position)
    requires
        foods_at(foods, p),
    ensures
        first_food_at(foods, p) >= 0,
    decreases foods.len(),
{
    if foods.len() == 0 {
    } else if foods[0].position == p {
    } else {
        let i = choose|i: int| 0 <= i < foods.len() && foods[i].position == p;
        assert(foods.drop_first()[i - 1].position == p);
        assert(foods_at(foods.drop_first(), p));
        lemma_first_food_at_some(foods.drop_first(), p);
    }
}

/// Whether the landing cell holds food.
pub open spec fn eats(g: GameState) -> bool {
    if g.mode.multiple_foods {
        foods_at(g.foods@, landing(g))
    } else {
        landing(g) == g.food
    }
}

/// The points the meal on the landing cell is worth.
pub open spec fn meal_value(g: GameState) -> u32 {
    if g.mode.multiple_foods {
        spec_point_value(g.foods@[first_food_at(g.foods@, landing(g))].food_type)
    } else {
        1u32
    }
}

/// Whether a power-up sits on the landing cell.
pub open spec fn powerup_hit(g: GameState) -> bool {
    &&& g.mode.powerups
    &&& match g.powerup {
        Some(pu) => pu.position == landing(g),
        None => false,
    }
}

/// The kind of the power-up on the grid (meaningful under `powerup_hit`).
pub open spec fn grid_powerup_type(g: GameState) -> PowerUpType {
    match g.powerup {
        Some(pu) => pu.power_type,
        None => PowerUpType::Slow,
    }
}

/// The snake body after the move and the meal, before any poison effect:
/// the landing cell becomes the new head; the tail is kept exactly when
/// food was eaten.
pub open spec fn body_after_meal(g: GameState) -> Seq<Position> {
    if eats(g) {
        seq![landing(g)] + g.snake.body@
    } else {
        seq![landing(g)] + g.snake.body@.drop_last()
    }
}

/// Whether a collected `Poison` power-up shrinks the snake: it never
/// shrinks below one segment.
pub open spec fn poison_applies(g: GameState) -> bool {
    &&& powerup_hit(g)
    &&& grid_powerup_type(g) is Poison
    &&& body_after_meal(g).len() > 1
}

/// What an actual move (running, not skipped, no collision) does.
pub open spec fn step_move_post(pre: GameState, post: GameState) -> bool {
    let land = landing(pre);
    let b1 = body_after_meal(pre);
    &&& post.grid == pre.grid
    &&& post.wrap_walls == pre.wrap_walls
    &&& post.mode == pre.mode
    &&& post.run_state is Running
    &&& post.snake.dir == pre.snake.dir
    &&& post.snake.body@ == (if poison_applies(pre) {
        b1.drop_last()
    } else {
        b1
    })
    &&& post.score == pre.score + (if eats(pre) {
        meal_value(pre)
    } else {
        0u32
    })
    &&& (!pre.mode.multiple_foods ==> {
        &&& post.foods@ == pre.foods@
        &&& (eats(pre) ==> pos_in_grid(post.food, pre.grid) && !b1.contains(post.food))
        &&& (!eats(pre) ==> post.food == pre.food)
    })
    &&& (pre.mode.multiple_foods ==> {
        &&& post.food == pre.food
        &&& (eats(pre) ==> {
            let rest = pre.foods@.remove(first_food_at(pre.foods@, land));
            if rest.len() < 5 {
                &&& post.foods@.len() == rest.len() + 1
                &&& post.foods@.drop_last() == rest
                &&& pos_in_grid(post.foods@.last().position, pre.grid)
                &&& !b1.contains(post.foods@.last().position)
                &&& !foods_at(rest, post.foods@.last().position)
            } else {
                post.foods@ == rest
            }
        })
        &&& (!eats(pre) ==> post.foods@ == pre.foods@)
    })
    &&& (powerup_hit(pre) ==> {
        &&& post.powerup is None
        &&& match grid_powerup_type(pre) {
            PowerUpType::Poison => {
                &&& post.active_powerup == pre.active_powerup
                &&& post.slow_skip_counter == counter_after_move(pre)
            },
            PowerUpType::Slow => {
                &&& post.active_powerup == Some(
                    (PowerUpType::Slow, spec_initial_duration(PowerUpType::Slow)),
                )
                &&& post.slow_skip_counter == 0
            },
            PowerUpType::Fast => {
                &&& post.active_powerup == Some(
                    (PowerUpType::Fast, spec_initial_duration(PowerUpType::Fast)),
                )
                &&& post.slow_skip_counter == counter_after_move(pre)
            },
        }
    })
    &&& (!powerup_hit(pre) ==> {
        &&& post.powerup == pre.powerup
        &&& post.active_powerup == pre.active_powerup
        &&& post.slow_skip_counter == counter_after_move(pre)
    })
}

/// The complete transition relation of one step.
pub open spec fn step_post(pre: GameState, post: GameState) -> bool {
    if !(pre.run_state is Running) {
        post == pre
    } else if step_skips(pre) {
        post == (GameState { slow_skip_counter: (pre.slow_skip_counter + 1) as u32, ..pre })
    } else if hits_wall(pre) {
        post == (GameState {
            run_state: RunState::Over,
            slow_skip_counter: counter_after_move(pre),
            ..pre
        })
    } else if hits_self(pre) {
        post == (GameState {
            run_state: RunState::Over,
            slow_skip_counter: counter_after_move(pre),
            ..pre
        })
    } else {
        step_move_post(pre, post)
    }
}

/// Room the step needs so that a replacement meal provably has a free
/// cell to land on.
pub open spec fn spawn_room(g: GameState) -> bool {
    if g.mode.multiple_foods {
        g.snake.body@.len() + g.foods@.len() + 1 <= g.grid.w * g.grid.h
    } else {
        g.snake.body@.len() + 2 <= g.grid.w * g.grid.h
    }
}

/// What the step requires of its input: a well-formed state, headroom
/// on the skip counter and the score, and room for food placement while
/// the session runs.
pub open spec fn step_req(g: GameState) -> bool {
    &&& g.grid_ok()
    &&& g.snake_ok()
    &&& g.slow_skip_counter < u32::MAX
    &&& g.score + 10 <= u32::MAX
    &&& (g.run_state is Running ==> spawn_room(g))
}

/// The new head cell, one unit from `head` in direction `dir`.
fn next_head(head: Position, dir: Direction) -> (p: Position)
    requires
        i32::MIN < head.x < i32::MAX,
        i32::MIN < head.y < i32::MAX,
    ensures
        p.x as int == head.x + dir_dx(dir),
        p.y as int == head.y + dir_dy(dir),
{
    match dir {
        Direction::Up => Position { x: head.x, y: head.y - 1 },
        Direction::Down => Position { x: head.x, y: head.y + 1 },
        Direction::Left => Position { x: head.x - 1, y: head.y },
        Direction::Right => Position { x: head.x + 1, y: head.y },
    }
}

/// Whether `p` lies off the grid `g`.
fn out_of_bounds(p: Position, g: GridSize) -> (b: bool)
    ensures
        b == !(0 <= p.x < g.w && 0 <= p.y < g.h),
{
    p.x < 0 || p.y < 0 || p.x >= g.w || p.y >= g.h
}

/// Wraps a position onto the grid, toroidally: each coordinate is
/// replaced by its Euclidean remainder.
fn wrap_position(p: Position, g: GridSize) -> (r: Position)
    requires
        1 <= g.w,
        1 <= g.h,
    ensures
        r.x as int == (p.x as int) % (g.w as int),
        r.y as int == (p.y as int) % (g.h as int),
{
    Position { x: rem_euclid_i32(p.x, g.w), y: rem_euclid_i32(p.y, g.h) }
}

/// Finds the first food on cell `p`, if any.
fn find_food_index(foods: &Vec<Food>, p: Position) -> (r: Option<usize>)
    ensures
        match r {
            Some(i) => {
                &&& i < foods@.len()
                &&& foods@[i as int].position == p
                &&& first_food_at(foods@, p) == i
            },
            None => {
                &&& first_food_at(foods@, p) == -1
                &&& !foods_at(foods@, p)
            },
        },
{
    let n: usize = foods.len();
    let mut i: usize = 0;
    while i < n
        invariant
            i <= n,
            n == foods@.len(),
            forall|j: int| 0 <= j < i ==> foods@[j].position != p,
        decreases n - i,
    {
        if foods[i].position == p {
            proof {
                lemma_first_food_at_prefix(foods@, p, i as int);
            }
            return Some(i);
        }
        i += 1;
    }
    proof {
        lemma_first_food_at_prefix(foods@, p, n as int);
    }
    None
}

/// When a step leaves the generator alone: only an eaten meal forces a
/// draw (for the replacement food), so a halted or skipped step, a
/// collision, and a plain move all consume nothing from the stream —
/// a caller replaying a seed stream can count on that.
pub open spec fn step_draws_nothing(g: GameState) -> bool {
    ||| !(g.run_state is Running)
    ||| step_skips(g)
    ||| hits_wall(g)
    ||| hits_self(g)
    ||| !eats(g)
}

/// Advances the game by one step: movement, collisions, feeding and
/// power-up pickup, exactly as [`step_post`] states.  A paused or
/// finished session is left untouched, and while a `Slow` effect is
/// active every other call returns without moving.
#[verifier::rlimit(100)]
#[verifier::spinoff_prover]
pub fn step<R: RngLike>(g: &mut GameState, rng: &mut R)
    requires
        step_req(*old(g)),
    ensures
        step_post(*old(g), *final(g)),
        step_draws_nothing(*old(g)) ==> *final(rng) == *old(rng),
{
    if matches!(g.run_state, RunState::Paused | RunState::Over) {
        return;
    }
    if g.mode.powerups {
        let is_slow = match g.active_powerup {
            Some(a) => matches!(a.0, PowerUpType::Slow),
            None => false,
        };
        if is_slow {
            g.slow_skip_counter = g.slow_skip_counter + 1;
            if g.slow_skip_counter % 2 == 1 {
                return;
            }
        }
    }
    let ghost pre = *old(g);

    let head: Position = g.snake.body[0];
    let next = next_head(head, g.snake.dir);
    let oob = out_of_bounds(next, g.grid);
    if oob && !g.wrap_walls {
        g.run_state = RunState::Over;
        return;
    }
    let land: Position = if oob {
        wrap_position(next, g.grid)
    } else {
        next
    };
    assert(land == landing(pre));

    if snake_contains(&g.snake, land) {
        g.run_state = RunState::Over;
        return;
    }

    g.snake.body.push_front(land);

    if g.mode.multiple_foods {
        if let Some(i) = find_food_index(&g.foods, land) {
            proof {
                assert(pre.foods@[i as int].position == land);
                assert(eats(pre));
            }
            let ghost rest = pre.foods@.remove(i as int);
            let eaten = g.foods.remove(i);
            let points = eaten.food_type.point_value();
            g.score = g.score + points;
            if g.foods.len() < 5 {
                let fresh = spawn_food_with_type(&g.grid, &g.snake, rng, &g.foods);
                g.foods.push(fresh);
                proof {
                    assert(g.foods@.drop_last() =~= rest);
                }
            }
        } else {
            g.snake.body.pop_back();
            proof {
                assert(g.snake.body@ =~= seq![land] + pre.snake.body@.drop_last());
            }
        }
    } else {
        if land == g.food {
            g.score = g.score + 1;
            g.food = spawn_food(&g.grid, &g.snake, rng);
        } else {
            g.snake.body.pop_back();
            proof {
                assert(g.snake.body@ =~= seq![land] + pre.snake.body@.drop_last());
            }
        }
    }
    proof {
        assert(g.snake.body@ == body_after_meal(pre));
    }

    if g.mode.powerups {
        let pu_opt = g.powerup;
        if let Some(pu) = pu_opt {
            if land == pu.position {
                let duration = pu.initial_duration();
                match pu.power_type {
                    PowerUpType::Poison => {
                        if g.snake.body.len() > 1 {
                            g.snake.body.pop_back();
                        }
                    },
                    _ => {
                        g.active_powerup = Some((pu.power_type, duration));
                        if matches!(pu.power_type, PowerUpType::Slow) {
                            g.slow_skip_counter = 0;
                        }
                    },
                }
                g.powerup = None;
            }
        }
    }
}

/// A step keeps the state well-formed: the grid, mode, topology and
/// direction are untouched, the snake stays non-empty and on the grid,
/// and the cell count, score and skip counter grow by bounded amounts.
pub proof fn lemma_step_preserves_invariants(pre: GameState, post: GameState)
    requires
        step_req(pre),
        step_post(pre, post),
    ensures
        post.grid == pre.grid,
        post.mode == pre.mode,
        post.wrap_walls == pre.wrap_walls,
        post.snake.dir == pre.snake.dir,
        post.snake_ok(),
        post.snake.body@.len() + post.foods@.len() <= pre.snake.body@.len() + pre.foods@.len()
            + 1,
        post.score <= pre.score + 10,
        post.slow_skip_counter <= pre.slow_skip_counter + 1,
        post.run_state is Running ==> pre.run_state is Running,
{
    if pre.run_state is Running && !step_skips(pre) && !hits_wall(pre) && !hits_self(pre) {
        let land = landing(pre);
        assert(pos_in_grid(land, pre.grid)) by {
            if target_out_of_bounds(pre) {
                lemma_mod_division_less_than_divisor(target_x(pre), pre.grid.w as int);
                lemma_mod_division_less_than_divisor(target_y(pre), pre.grid.h as int);
            }
        }
        let b1 = body_after_meal(pre);
        assert(forall|i: int|
            0 <= i < b1.len() ==> pos_in_grid(#[trigger] b1[i], pre.grid));
        if pre.mode.multiple_foods && eats(pre) {
            lemma_first_food_at_some(pre.foods@, land);
            lemma_first_food_at_found(pre.foods@, land);
        }
        assert(meal_value(pre) <= 10);
    }
}

/// The fixed power-up-type distribution over a roll in `[0, 100)`:
/// rolls below 40 give `Slow`, below 80 `Fast`, the rest `Poison`.
pub open spec fn spec_powerup_type_for_roll(roll: u32) -> PowerUpType {
    if roll < 40 {
        PowerUpType::Slow
    } else if roll < 80 {
        PowerUpType::Fast
    } else {
        PowerUpType::Poison
    }
}

/// Maps a roll to its power-up type, exactly as the distribution states.
fn powerup_type_for_roll(roll: u32) -> (t: PowerUpType)
    ensures
        t == spec_powerup_type_for_roll(roll),
{
    if roll < 40 {
        PowerUpType::Slow
    } else if roll < 80 {
        PowerUpType::Fast
    } else {
        PowerUpType::Poison
    }
}

/// Rolls the kind of a fresh power-up: Slow with 40%, Fast with 40% and
/// Poison with 20% probability.
fn determine_powerup_type<R: RngLike>(rng: &mut R) -> PowerUpType {
    let roll: u32 = rng.next_u32() % 100;
    powerup_type_for_roll(roll)
}

/// Tries to roll a fresh power-up: a 10% chance gate, then up to 101
/// placement attempts on cells free of the snake, the food supply and
/// the single-mode food; exhausting the attempts is a silent soft-fail.
#[verifier::loop_isolation(false)]
fn spawn_powerup<R: RngLike>(
    grid: &GridSize,
    snake: &Snake,
    foods: &Vec<Food>,
    single_food: Option<Position>,
    rng: &mut R,
) -> (r: Option<PowerUp>)
    requires
        1 <= grid.w,
        1 <= grid.h,
    ensures
        match r {
            Some(pu) => {
                &&& pos_in_grid(pu.position, *grid)
                &&& !snake.body@.contains(pu.position)
                &&& !foods_at(foods@, pu.position)
                &&& match single_food {
                    Some(f) => pu.position != f,
                    None => true,
                }
                &&& pu.remaining_duration == spec_initial_duration(pu.power_type)
            },
            None => true,
        },
{
    if (rng.next_u32() % 100) >= 10 {
        return None;
    }
    let power_type = determine_powerup_type(rng);

    let mut attempts: u32 = 0;
    while attempts <= 100
        invariant
            attempts <= 101,
        decreases 101 - attempts,
    {
        let x: i32 = crate::state::sample_coord(rng, grid.w);
        let y: i32 = crate::state::sample_coord(rng, grid.h);
        let p = Position { x, y };
        let mut blocked = snake_contains(snake, p) || crate::state::foods_contain(foods, p);
        if let Some(f) = single_food {
            if p == f {
                blocked = true;
            }
        }
        if !blocked {
            let duration: u32 = match power_type {
                PowerUpType::Slow => 20,
                PowerUpType::Fast => 15,
                PowerUpType::Poison => 0,
            };
            return Some(PowerUp { position: p, power_type, remaining_duration: duration });
        }
        attempts += 1;
    }
    None
}

/// What a power-up spawn attempt may do to the state: nothing, or — when
/// power-ups are enabled and none is on the grid — place one on a free
/// cell, leaving every other field alone.
pub open spec fn try_spawn_post(pre: GameState, post: GameState) -> bool {
    if !pre.mode.powerups || !(pre.powerup is None) {
        post == pre
    } else {
        ||| post == pre
        ||| {
            &&& post == (GameState { powerup: post.powerup, ..pre })
            &&& match post.powerup {
                Some(pu) => {
                    &&& pos_in_grid(pu.position, pre.grid)
                    &&& !pre.snake.body@.contains(pu.position)
                    &&& (pre.mode.multiple_foods ==> !foods_at(pre.foods@, pu.position))
                    &&& (!pre.mode.multiple_foods ==> pu.position != pre.food)
                    &&& pu.remaining_duration == spec_initial_duration(pu.power_type)
                },
                None => false,
            }
        }
    }
}

/// Attempts to spawn a power-up once: only when power-ups are enabled
/// and none is already on the grid, and even then only with the spawn
/// chance of [`spawn_powerup`].
pub fn try_spawn_powerup<R: RngLike>(g: &mut GameState, rng: &mut R)
    requires
        old(g).grid_ok(),
    ensures
        try_spawn_post(*old(g), *final(g)),
        !old(g).mode.powerups || !(old(g).powerup is None) ==> *final(rng) == *old(rng),
{
    if !g.mode.powerups {
        return;
    }
    if g.powerup.is_some() {
        return;
    }
    let spawned = if g.mode.multiple_foods {
        spawn_powerup(&g.grid, &g.snake, &g.foods, None, rng)
    } else {
        let no_foods: Vec<Food> = Vec::new();
        spawn_powerup(&g.grid, &g.snake, &no_foods, Some(g.food), rng)
    };
    if let Some(pu) = spawned {
        g.powerup = Some(pu);
    }
}

// ---------------------------------------------------------------------
// Laws of the rule engine, proved from the transition relation.
// ---------------------------------------------------------------------

/// Movement law: whenever the move stays on the grid and does not run
/// into the snake itself, the new head is the old head displaced by the
/// unit vector of the current direction, and the body length is
/// unchanged unless food was eaten (one longer) or poison was applied
/// (one shorter, never below one segment).
pub proof fn lemma_step_moves_head(pre: GameState, post: GameState)
    requires
        step_req(pre),
        step_post(pre, post),
        pre.run_state is Running,
        !step_skips(pre),
        !target_out_of_bounds(pre),
        !hits_self(pre),
    ensures
        post.run_state is Running,
        post.snake.body@.len() >= 1,
        post.snake.body@[0].x as int == head_of(pre).x + dir_dx(pre.snake.dir),
        post.snake.body@[0].y as int == head_of(pre).y + dir_dy(pre.snake.dir),
        !eats(pre) && !poison_applies(pre) ==> post.snake.body@.len()
            == pre.snake.body@.len(),
        eats(pre) && !poison_applies(pre) ==> post.snake.body@.len()
            == pre.snake.body@.len() + 1,
        poison_applies(pre) ==> post.snake.body@.len() + 1 == (if eats(pre) {
            pre.snake.body@.len() + 1
        } else {
            pre.snake.body@.len() + 0
        }) && post.snake.body@.len() >= 1,
{
}

/// Wrap law, enabled half: with toroidal topology, a move off an edge
/// lands on the opposite edge at the same orthogonal coordinate — each
/// coordinate is the Euclidean remainder of the target — and the game
/// does not end for it.
pub proof fn lemma_wrap_keeps_running(pre: GameState, post: GameState)
    requires
        step_req(pre),
        step_post(pre, post),
        pre.run_state is Running,
        !step_skips(pre),
        target_out_of_bounds(pre),
        pre.wrap_walls,
        !hits_self(pre),
    ensures
        post.run_state is Running,
        post.snake.body@[0].x as int == target_x(pre) % (pre.grid.w as int),
        post.snake.body@[0].y as int == target_y(pre) % (pre.grid.h as int),
        pre.snake.dir is Right ==> post.snake.body@[0] == (Position {
            x: 0,
            y: head_of(pre).y,
        }),
        pre.snake.dir is Left ==> post.snake.body@[0] == (Position {
            x: (pre.grid.w - 1) as i32,
            y: head_of(pre).y,
        }),
        pre.snake.dir is Down ==> post.snake.body@[0] == (Position {
            x: head_of(pre).x,
            y: 0,
        }),
        pre.snake.dir is Up ==> post.snake.body@[0] == (Position {
            x: head_of(pre).x,
            y: (pre.grid.h - 1) as i32,
        }),
{
    let w = pre.grid.w as int;
    let h = pre.grid.h as int;
    let hd = head_of(pre);
    assert(pos_in_grid(hd, pre.grid));
    match pre.snake.dir {
        Direction::Right => {
            // The only way off the grid is across the right edge.
            assert(hd.x + 1 == w);
            lemma_fundamental_div_mod_converse(w, w, 1, 0);
            lemma_small_mod(hd.y as nat, h as nat);
        },
        Direction::Left => {
            assert(hd.x == 0);
            assert(target_x(pre) == -1);
            // -1 mod w lands on the far column.
            lemma_fundamental_div_mod_converse(-1, w, -1, w - 1);
            lemma_small_mod(hd.y as nat, h as nat);
        },
        Direction::Down => {
            assert(hd.y + 1 == h);
            lemma_fundamental_div_mod_converse(h, h, 1, 0);
            lemma_small_mod(hd.x as nat, w as nat);
        },
        Direction::Up => {
            assert(hd.y == 0);
            assert(target_y(pre) == -1);
            lemma_fundamental_div_mod_converse(-1, h, -1, h - 1);
            lemma_small_mod(hd.x as nat, w as nat);
        },
    }
}

/// Wrap law, disabled half: the identical move off an edge ends the
/// game when the topology is bounded, and moves nothing.
pub proof fn lemma_wall_ends_game(pre: GameState, post: GameState)
    requires
        step_req(pre),
        step_post(pre, post),
        pre.run_state is Running,
        !step_skips(pre),
        target_out_of_bounds(pre),
        !pre.wrap_walls,
    ensures
        post.run_state is Over,
        post.snake.body@ == pre.snake.body@,
        post.score == pre.score,
{
}

/// Self-collision law: a step whose landing cell coincides with a
/// current body segment always ends the game, and moves nothing.
pub proof fn lemma_self_collision_ends_game(pre: GameState, post: GameState)
    requires
        step_req(pre),
        step_post(pre, post),
        pre.run_state is Running,
        !step_skips(pre),
        hits_self(pre),
    ensures
        post.run_state is Over,
        post.snake.body@ == pre.snake.body@,
        post.score == pre.score,
{
}

/// Slow-effect law: while a `Slow` effect is active, a step taken on an
/// even skip counter only bumps the counter and moves nothing, and a
/// step taken on an odd counter performs a real move.  That a skipped
/// step also draws nothing from the generator is part of `step`'s own
/// contract, through [`step_draws_nothing`].
pub proof fn lemma_slow_skip_parity(pre: GameState, post: GameState)
    requires
        step_req(pre),
        step_post(pre, post),
        pre.run_state is Running,
        slow_is_active(pre),
    ensures
        pre.slow_skip_counter % 2 == 0 ==> post == (GameState {
            slow_skip_counter: (pre.slow_skip_counter + 1) as u32,
            ..pre
        }),
        pre.slow_skip_counter % 2 == 1 && !hits_wall(pre) && !hits_self(pre)
            ==> post.snake.body@[0] == landing(pre),
{
}

/// Lifecycle law: a finished session is terminal for the rule engine —
/// a step leaves it entirely untouched.  A paused session is equally
/// untouched, but reversible through `resume`.
pub proof fn lemma_step_on_halted_is_noop(pre: GameState, post: GameState)
    requires
        step_post(pre, post),
        !(pre.run_state is Running),
    ensures
        post == pre,
{
}

/// Food invariant: a step keeps the food supply consistent.  No food
/// ever lies on a snake cell, every food lies on the grid, and in
/// multi-food mode the foods keep pairwise distinct cells.
pub proof fn lemma_step_preserves_food_ok(pre: GameState, post: GameState)
    requires
        step_req(pre),
        step_post(pre, post),
        pre.food_ok(),
    ensures
        post.food_ok(),
{
    if pre.run_state is Running && !step_skips(pre) && !hits_wall(pre) && !hits_self(pre) {
        let land = landing(pre);
        let b1 = body_after_meal(pre);
        assert(forall|i: int|
            0 <= i < post.snake.body@.len() ==> post.snake.body@[i] == b1[i]);
        if !pre.mode.multiple_foods {
            lemma_step_preserves_invariants(pre, post);
            assert(!post.snake.body@.contains(post.food)) by {
                if post.snake.body@.contains(post.food) {
                    let i = choose|i: int|
                        0 <= i < post.snake.body@.len() && post.snake.body@[i] == post.food;
                    assert(b1[i] == post.food);
                    if eats(pre) {
                        assert(b1.contains(post.food));
                    } else {
                        if i > 0 {
                            assert(pre.snake.body@[i - 1] == post.food);
                            assert(pre.snake.body@.contains(post.food));
                        }
                    }
                }
            }
        } else {
            if eats(pre) {
                lemma_first_food_at_some(pre.foods@, land);
                lemma_first_food_at_found(pre.foods@, land);
                let k = first_food_at(pre.foods@, land);
                let rest = pre.foods@.remove(k);
                assert forall|j: int| 0 <= j < rest.len() implies {
                    &&& pos_in_grid((#[trigger] rest[j]).position, pre.grid)
                    &&& rest[j].position != land
                    &&& !pre.snake.body@.contains(rest[j].position)
                } by {
                    let src: int = if j < k {
                        j
                    } else {
                        j + 1
                    };
                    assert(rest[j] == pre.foods@[src]);
                    assert(pos_in_grid(pre.foods@[src].position, pre.grid));
                    assert(!pre.snake.body@.contains(pre.foods@[src].position));
                    if rest[j].position == land {
                        if src < k {
                            assert(pre.foods@[src].position != pre.foods@[k].position);
                        } else {
                            assert(pre.foods@[k].position != pre.foods@[src].position);
                        }
                    }
                }
                assert forall|j1: int, j2: int| 0 <= j1 < j2 < rest.len() implies (
                #[trigger] rest[j1]).position != (#[trigger] rest[j2]).position by {
                    let s1: int = if j1 < k {
                        j1
                    } else {
                        j1 + 1
                    };
                    let s2: int = if j2 < k {
                        j2
                    } else {
                        j2 + 1
                    };
                    assert(rest[j1] == pre.foods@[s1] && rest[j2] == pre.foods@[s2]);
                    assert(pre.foods@[s1].position != pre.foods@[s2].position);
                }
                assert forall|i: int|
                    0 <= i < post.foods@.len() implies !post.snake.body@.contains(
                    (#[trigger] post.foods@[i]).position) by {
                    let q = post.foods@[i].position;
                    if post.snake.body@.contains(q) {
                        let t = choose|t: int|
                            0 <= t < post.snake.body@.len() && post.snake.body@[t] == q;
                        assert(b1[t] == q);
                        if rest.len() < 5 {
                            if i < post.foods@.len() - 1 {
                                assert(post.foods@.drop_last()[i] == rest[i]);
                                assert(q == rest[i].position);
                                if t == 0 {
                                    assert(q == land);
                                } else {
                                    assert(pre.snake.body@[t - 1] == q);
                                    assert(pre.snake.body@.contains(q));
                                }
                            } else {
                                assert(post.foods@[i] == post.foods@.last());
                                assert(!b1.contains(q));
                            }
                        } else {
                            assert(q == rest[i].position);
                            if t == 0 {
                                assert(q == land);
                            } else {
                                assert(pre.snake.body@[t - 1] == q);
                                assert(pre.snake.body@.contains(q));
                            }
                        }
                    }
                }
                assert forall|i: int|
                    0 <= i < post.foods@.len() implies pos_in_grid(
                    (#[trigger] post.foods@[i]).position, post.grid) by {
                    if rest.len() < 5 && i == post.foods@.len() - 1 {
                        assert(post.foods@[i] == post.foods@.last());
                    } else {
                        assert(post.foods@[i] == rest[i]);
                    }
                }
                assert forall|j1: int, j2: int| 0 <= j1 < j2 < post.foods@.len() implies (
                #[trigger] post.foods@[j1]).position != (#[trigger] post.foods@[j2]).position by {
                    if rest.len() < 5 && j2 == post.foods@.len() - 1 {
                        assert(post.foods@[j1] == rest[j1]);
                        assert(!foods_at(rest, post.foods@.last().position));
                        if post.foods@[j1].position == post.foods@[j2].position {
                            assert(rest[j1].position == post.foods@.last().position);
                            assert(foods_at(rest, post.foods@.last().position));
                        }
                    } else {
                        assert(post.foods@[j1] == rest[j1] && post.foods@[j2] == rest[j2]);
                    }
                }
            } else {
                assert(!foods_at(pre.foods@, land));
                assert forall|i: int|
                    0 <= i < post.foods@.len() implies !post.snake.body@.contains(
                    (#[trigger] post.foods@[i]).position) by {
                    let q = post.foods@[i].position;
                    assert(post.foods@[i] == pre.foods@[i]);
                    if post.snake.body@.contains(q) {
                        let t = choose|t: int|
                            0 <= t < post.snake.body@.len() && post.snake.body@[t] == q;
                        assert(b1[t] == q);
                        if t == 0 {
                            assert(q == land);
                            assert(foods_at(pre.foods@, land));
                        } else {
                            assert(pre.snake.body@[t - 1] == q);
                            assert(pre.snake.body@.contains(q));
                        }
                    }
                }
            }
        }
    }
}


} // verus!
