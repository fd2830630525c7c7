//! The mutable game state: the snake, the food supply, score and run
//! state, together with the constructors and `reset`, which establish the
//! state invariants, and the rejection-sampling food placement they use.
//!
//! The original rule set places food by drawing random cells until a free
//! one turns up, with no bound on the number of attempts.  Here the
//! sampling is capped and falls back to a deterministic scan of the grid,
//! a deliberate choice so that placement provably terminates; the fallback
//! is unreachable in practice on any grid that is not almost full.

use vstd::prelude::*;
use vstd::arithmetic::div_mod::{
    lemma_fundamental_div_mod, lemma_fundamental_div_mod_converse,
    lemma_mod_division_less_than_divisor,
};
use vstd::set_lib::lemma_len_subset;
use std::collections::VecDeque;
use crate::rng::RngLike;
use crate::types::{Direction, Food, FoodType, GridSize, PowerUp, PowerUpType, Position};
use crate::types::pos_in_grid;

verus! {

/// The snake: an ordered sequence of cells, front = head, back = tail,
/// plus its current movement direction.
#[derive(Clone, Debug, PartialEq, Eq)]
pub struct Snake {
    pub body: VecDeque<Position>,
    pub dir: Direction,
}

/// The coarse lifecycle phase of a session.  `Over` is terminal for the
/// rule engine; `Paused` blocks stepping but is reversible.
#[derive(Copy, Clone, Debug, PartialEq, Eq, Structural)]
pub enum RunState {
    Running,
    Paused,
    Over,
}

/// Which optional rule variants are active for a session.  The fields of
/// [`GameState`] that belong to a disabled variant are carried along but
/// semantically inert.
#[derive(Clone, Copy, Debug, PartialEq, Eq, Structural)]
pub struct GameMode {
    /// Several typed foods on the grid instead of a single one.
    pub multiple_foods: bool,
    /// Power-ups spawn and take effect.
    pub powerups: bool,
}

/// The aggregate state of one game session.
#[derive(Clone, Debug, PartialEq, Eq)]
pub struct GameState {
    pub grid: GridSize,
    pub snake: Snake,
    /// The food cell in single-food mode; inert in multi-food mode.
    pub food: Position,
    /// The foods on the grid in multi-food mode; empty in single-food mode.
    pub foods: Vec<Food>,
    pub score: u32,
    pub run_state: RunState,
    /// Toroidal topology: moving off an edge reappears on the opposite one.
    pub wrap_walls: bool,
    /// Which optional rule variants are active.
    pub mode: GameMode,
    /// The power-up currently lying on the grid, if any.
    pub powerup: Option<PowerUp>,
    /// The effect currently applied to the snake: kind and remaining ticks.
    pub active_powerup: Option<(PowerUpType, u32)>,
    /// Parity counter that halves the effective speed while `Slow` is active.
    pub slow_skip_counter: u32,
}

/// Whether some food in `foods` occupies the cell `p`.
pub open spec fn foods_at(foods: Seq<Food>, p: Position) -> bool {
    exists|i: int| 0 <= i < foods.len() && foods[i].position == p
}

/// Whether the cell `p` is taken by a snake segment or a food.
pub open spec fn occupied(body: Seq<Position>, foods: Seq<Food>, p: Position) -> bool {
    body.contains(p) || foods_at(foods, p)
}

impl GameState {
    /// The grid has positive dimensions.
    pub open spec fn grid_ok(self) -> bool {
        &&& 1 <= self.grid.w
        &&& 1 <= self.grid.h
    }

    /// The snake is non-empty and lies on the grid.
    pub open spec fn snake_ok(self) -> bool {
        &&& self.snake.body@.len() >= 1
        &&& forall|i: int|
            0 <= i < self.snake.body@.len() ==> pos_in_grid(
                #[trigger] self.snake.body@[i],
                self.grid,
            )
    }

    /// The foods of multi-food mode occupy pairwise distinct cells.
    pub open spec fn foods_distinct(self) -> bool {
        forall|i: int, j: int|
            0 <= i < j < self.foods@.len() ==> (#[trigger] self.foods@[i]).position != (
            #[trigger] self.foods@[j]).position
    }

    /// The food supply is consistent: every food lies on the grid, none
    /// on the snake, and in multi-food mode no two share a cell.
    pub open spec fn food_ok(self) -> bool {
        if self.mode.multiple_foods {
            &&& forall|i: int|
                0 <= i < self.foods@.len() ==> pos_in_grid(
                    (#[trigger] self.foods@[i]).position,
                    self.grid,
                )
            &&& forall|i: int|
                0 <= i < self.foods@.len() ==> !self.snake.body@.contains(
                    (#[trigger] self.foods@[i]).position,
                )
            &&& self.foods_distinct()
        } else {
            &&& pos_in_grid(self.food, self.grid)
            &&& !self.snake.body@.contains(self.food)
        }
    }

    /// Everything the rule engine relies on between steps.
    pub open spec fn wf(self) -> bool {
        &&& self.grid_ok()
        &&& self.snake_ok()
    }

    /// The cell at the centre of the grid, where a fresh snake starts.
    pub open spec fn center(grid: GridSize) -> Position {
        Position { x: (grid.w / 2) as i32, y: (grid.h / 2) as i32 }
    }

    /// What `new` and `reset` establish: a single-segment snake at the
    /// grid centre facing right, score zero, a running session, a fresh
    /// food supply and no power-up state.
    pub open spec fn freshly_initialized(self, grid: GridSize, wrap: bool, mode: GameMode) -> bool {
        &&& self.grid == grid
        &&& self.wrap_walls == wrap
        &&& self.mode == mode
        &&& self.snake.body@ == seq![Self::center(grid)]
        &&& self.snake.dir == Direction::Right
        &&& self.score == 0
        &&& self.run_state is Running
        &&& self.powerup is None
        &&& self.active_powerup is None
        &&& self.slow_skip_counter == 0
        &&& self.food_ok()
        &&& (mode.multiple_foods ==> 3 <= self.foods@.len() <= 5)
        &&& (!mode.multiple_foods ==> self.foods@.len() == 0)
    }
}

/// Room the constructors need for rejection sampling to have a free cell:
/// a one-segment snake plus the initial food supply must leave the grid
/// not full.  A grid without this room would make the original's
/// unbounded sampling spin forever; such grids are excluded by contract.
pub open spec fn room_for_init(grid: GridSize, mode: GameMode) -> bool {
    if mode.multiple_foods {
        grid.w * grid.h >= 6
    } else {
        grid.w * grid.h >= 2
    }
}

impl GameState {
    /// A fresh session with the plain rule set and walls that end the game.
    pub fn new<R: RngLike>(grid: GridSize, rng: R) -> (g: GameState)
        requires
            1 <= grid.w,
            1 <= grid.h,
            grid.w * grid.h >= 2,
        ensures
            g.freshly_initialized(grid, false, GameMode { multiple_foods: false, powerups: false }),
    {
        Self::new_with_wrap(grid, rng, false)
    }

    /// A fresh session with the plain rule set and a chosen wall topology.
    pub fn new_with_wrap<R: RngLike>(grid: GridSize, rng: R, wrap_walls: bool) -> (g: GameState)
        requires
            1 <= grid.w,
            1 <= grid.h,
            grid.w * grid.h >= 2,
        ensures
            g.freshly_initialized(
                grid,
                wrap_walls,
                GameMode { multiple_foods: false, powerups: false },
            ),
    {
        Self::new_with_mode(grid, rng, wrap_walls, GameMode { multiple_foods: false, powerups: false })
    }

    /// A fresh session with a chosen wall topology and rule variants.
    pub fn new_with_mode<R: RngLike>(
        grid: GridSize,
        mut rng: R,
        wrap_walls: bool,
        mode: GameMode,
    ) -> (g: GameState)
        requires
            1 <= grid.w,
            1 <= grid.h,
            room_for_init(grid, mode),
        ensures
            g.freshly_initialized(grid, wrap_walls, mode),
    {
        let start = Position { x: grid.w / 2, y: grid.h / 2 };
        let mut body: VecDeque<Position> = VecDeque::new();
        body.push_back(start);
        let snake = Snake { body, dir: Direction::Right };

        let mut food = Position { x: 0, y: 0 };
        let mut foods: Vec<Food> = Vec::new();
        if mode.multiple_foods {
            foods = spawn_initial_foods(&grid, &snake, &mut rng);
        } else {
            food = spawn_food(&grid, &snake, &mut rng);
        }

        GameState {
            grid,
            snake,
            food,
            foods,
            score: 0,
            run_state: RunState::Running,
            wrap_walls,
            mode,
            powerup: None,
            active_powerup: None,
            slow_skip_counter: 0,
        }
    }

    /// Transitions `Running` to `Paused`; a no-op in any other phase.
    pub fn pause(&mut self)
        ensures
            old(self).run_state is Running ==> *final(self) == (GameState {
                run_state: RunState::Paused,
                ..*old(self)
            }),
            !(old(self).run_state is Running) ==> *final(self) == *old(self),
    {
        if matches!(self.run_state, RunState::Running) {
            self.run_state = RunState::Paused;
        }
    }

    /// Transitions `Paused` back to `Running`; a no-op in any other
    /// phase, in particular while the session is `Over`.
    pub fn resume(&mut self)
        ensures
            old(self).run_state is Paused ==> *final(self) == (GameState {
                run_state: RunState::Running,
                ..*old(self)
            }),
            !(old(self).run_state is Paused) ==> *final(self) == *old(self),
    {
        if matches!(self.run_state, RunState::Paused) {
            self.run_state = RunState::Running;
        }
    }

    pub fn is_paused(&self) -> (b: bool)
        ensures
            b == (self.run_state is Paused),
    {
        matches!(self.run_state, RunState::Paused)
    }

    pub fn is_over(&self) -> (b: bool)
        ensures
            b == (self.run_state is Over),
    {
        matches!(self.run_state, RunState::Over)
    }

    /// Re-establishes the initial invariants on an existing session:
    /// score zero, a running state, a one-segment snake at the grid
    /// centre facing right and a fresh food supply.  The wall topology
    /// and the rule variants are preserved; power-up state is cleared.
    pub fn reset<R: RngLike>(&mut self, mut rng: R)
        requires
            old(self).grid_ok(),
            room_for_init(old(self).grid, old(self).mode),
        ensures
            final(self).freshly_initialized(
                old(self).grid,
                old(self).wrap_walls,
                old(self).mode,
            ),
    {
        let start = Position { x: self.grid.w / 2, y: self.grid.h / 2 };
        let mut body: VecDeque<Position> = VecDeque::new();
        body.push_back(start);
        self.snake = Snake { body, dir: Direction::Right };
        if self.mode.multiple_foods {
            self.foods = spawn_initial_foods(&self.grid, &self.snake, &mut rng);
        } else {
            self.food = spawn_food(&self.grid, &self.snake, &mut rng);
            self.foods = Vec::new();
        }
        self.score = 0;
        self.run_state = RunState::Running;
        self.powerup = None;
        self.active_powerup = None;
        self.slow_skip_counter = 0;
    }
}

/// Euclidean remainder on `i32`, total for a positive modulus.
pub(crate) fn rem_euclid_i32(x: i32, m: i32) -> (r: i32)
    requires
        1 <= m,
    ensures
        0 <= r < m,
        r as int == (x as int) % (m as int),
{
    proof {
        lemma_mod_division_less_than_divisor(x as int, m as int);
    }
    let t: i32 = x % m;
    proof {
        let xi = x as int;
        let mi = m as int;
        if x < 0 {
            let a = -xi;
            lemma_fundamental_div_mod(a, mi);
            lemma_mod_division_less_than_divisor(a, mi);
            let q = a / mi;
            assert(t as int == -(a % mi));
            if t == 0 {
                assert(xi == -q * mi + 0) by (nonlinear_arith)
                    requires
                        a == mi * q + a % mi,
                        xi == -a,
                        a % mi == 0,
                ;
                lemma_fundamental_div_mod_converse(xi, mi, -q, 0);
            } else {
                assert(xi == (-q - 1) * mi + (t as int + mi)) by (nonlinear_arith)
                    requires
                        a == mi * q + a % mi,
                        xi == -a,
                        t as int == -(a % mi),
                ;
                lemma_fundamental_div_mod_converse(xi, mi, -q - 1, t as int + mi);
            }
        }
    }
    if t < 0 {
        t + m
    } else {
        t
    }
}

/// One coordinate draw: the next 32-bit value reinterpreted as signed and
/// reduced into `[0, m)` by the Euclidean remainder.
pub(crate) fn sample_coord<R: RngLike>(rng: &mut R, m: i32) -> (r: i32)
    requires
        1 <= m,
    ensures
        0 <= r < m,
{
    let u: u32 = rng.next_u32();
    let s: i32 = #[verifier::truncate] (u as i32);
    rem_euclid_i32(s, m)
}

/// Whether the snake occupies the cell `p`.
pub(crate) fn snake_contains(snake: &Snake, p: Position) -> (b: bool)
    ensures
        b == snake.body@.contains(p),
{
    let n: usize = snake.body.len();
    let mut i: usize = 0;
    while i < n
        invariant
            i <= n,
            n == snake.body@.len(),
            forall|j: int| 0 <= j < i ==> snake.body@[j] != p,
        decreases n - i,
    {
        let q: Position = snake.body[i];
        if q == p {
            assert(snake.body@.contains(p)) by {
                assert(snake.body@[i as int] == p);
            }
            return true;
        }
        i += 1;
    }
    false
}

/// Whether some food in `foods` occupies the cell `p`.
pub(crate) fn foods_contain(foods: &Vec<Food>, p: Position) -> (b: bool)
    ensures
        b == foods_at(foods@, p),
{
    let n: usize = foods.len();
    let mut i: usize = 0;
    while i < n
        invariant
            i <= n,
            n == foods@.len(),
            forall|j: int| 0 <= j < i ==> foods@[j].position != p,
        decreases n - i,
    {
        if foods[i].position == p {
            assert(foods_at(foods@, p)) by {
                assert(foods@[i as int].position == p);
            }
            return true;
        }
        i += 1;
    }
    false
}

/// The linear index of a cell when the grid is read column by column.
pub open spec fn cell_index(p: Position, h: int) -> int {
    p.x * h + p.y
}

/// The grid cells whose linear index lies below `n`.
pub open spec fn cell_set(grid: GridSize, n: int) -> Set<Position> {
    Set::new(|p: Position| pos_in_grid(p, grid) && cell_index(p, grid.h as int) < n)
}

/// The first `n` cells of the grid, in linear order, number exactly `n`.
proof fn lemma_cell_set_card(grid: GridSize, n: int)
    requires
        1 <= grid.w,
        1 <= grid.h,
        0 <= n <= grid.w * grid.h,
    ensures
        cell_set(grid, n).finite(),
        cell_set(grid, n).len() == n,
    decreases n,
{
    broadcast use vstd::set::group_set_axioms;

    let h = grid.h as int;
    let w = grid.w as int;
    if n == 0 {
        assert forall|p: Position| !(#[trigger] cell_set(grid, 0).contains(p)) by {
            if pos_in_grid(p, grid) {
                assert(cell_index(p, h) >= 0) by (nonlinear_arith)
                    requires
                        p.x >= 0,
                        p.y >= 0,
                        h >= 1,
                        cell_index(p, h) == p.x * h + p.y,
                ;
            }
        }
        assert(cell_set(grid, 0) =~= Set::<Position>::empty());
    } else {
        lemma_cell_set_card(grid, n - 1);
        let q = (n - 1) / h;
        let r = (n - 1) % h;
        lemma_fundamental_div_mod(n - 1, h);
        lemma_mod_division_less_than_divisor(n - 1, h);
        assert(0 <= q < w) by (nonlinear_arith)
            requires
                h >= 1,
                w >= 1,
                0 <= n - 1 < w * h,
                n - 1 == h * q + r,
                0 <= r < h,
        ;
        let pw = Position { x: q as i32, y: r as i32 };
        assert(pw.x as int == q && pw.y as int == r);
        assert(cell_index(pw, h) == n - 1) by (nonlinear_arith)
            requires
                cell_index(pw, h) == pw.x * h + pw.y,
                pw.x as int == q,
                pw.y as int == r,
                n - 1 == h * q + r,
        ;
        assert forall|p: Position| #[trigger] cell_set(grid, n).contains(p) implies cell_set(
            grid,
            n - 1,
        ).insert(pw).contains(p) by {
            if cell_index(p, h) == n - 1 {
                lemma_fundamental_div_mod_converse(n - 1, h, p.x as int, p.y as int);
                assert(p.x as int == q && p.y as int == r);
                assert(p == pw);
            }
        }
        assert forall|p: Position| cell_set(grid, n - 1).insert(pw).contains(p) implies #[trigger]
        cell_set(grid, n).contains(p) by {
            if p == pw {
                assert(pos_in_grid(pw, grid));
            }
        }
        assert(cell_set(grid, n) =~= cell_set(grid, n - 1).insert(pw));
        assert(!cell_set(grid, n - 1).contains(pw));
    }
}

/// Pigeonhole: a snake and a food supply that together cover fewer cells
/// than the grid holds leave at least one cell entirely free.
proof fn lemma_free_cell_exists(body: Seq<Position>, foods: Seq<Food>, grid: GridSize)
    requires
        1 <= grid.w,
        1 <= grid.h,
        body.len() + foods.len() < grid.w * grid.h,
    ensures
        exists|p: Position| pos_in_grid(p, grid) && !occupied(body, foods, p),
{
    broadcast use vstd::set::group_set_axioms;
    broadcast use vstd::seq_lib::seq_to_set_is_finite;

    if !(exists|p: Position| pos_in_grid(p, grid) && !occupied(body, foods, p)) {
        let occ = body + foods.map_values(|f: Food| f.position);
        let total = grid.w * grid.h;
        lemma_cell_set_card(grid, total as int);
        let all = cell_set(grid, total as int);
        assert forall|p: Position| #[trigger] all.contains(p) implies occ.to_set().contains(p) by {
            assert(pos_in_grid(p, grid));
            assert(occupied(body, foods, p));
            if body.contains(p) {
                let i = choose|i: int| 0 <= i < body.len() && body[i] == p;
                assert(occ[i] == p);
                assert(occ.contains(p));
            } else {
                let i = choose|i: int| 0 <= i < foods.len() && foods[i].position == p;
                assert(occ[body.len() + i] == p);
                assert(occ.contains(p));
            }
        }
        occ.lemma_cardinality_of_set();
        lemma_len_subset(all, occ.to_set());
        assert(false);
    }
}

/// Draws a free cell: up to 100 random attempts, then a deterministic
/// scan of the whole grid.  The scan cannot fail, because the occupied
/// cells leave the grid not full.
#[verifier::loop_isolation(false)]
fn place_on_free_cell<R: RngLike>(
    grid: &GridSize,
    snake: &Snake,
    foods: &Vec<Food>,
    rng: &mut R,
) -> (p: Position)
    requires
        1 <= grid.w,
        1 <= grid.h,
        snake.body@.len() + foods@.len() < grid.w * grid.h,
    ensures
        pos_in_grid(p, *grid),
        !snake.body@.contains(p),
        !foods_at(foods@, p),
{
    let mut attempts: u32 = 0;
    while attempts < 100
        decreases 100 - attempts,
    {
        let x: i32 = sample_coord(rng, grid.w);
        let y: i32 = sample_coord(rng, grid.h);
        let cand = Position { x, y };
        if !snake_contains(snake, cand) && !foods_contain(foods, cand) {
            return cand;
        }
        attempts += 1;
    }
    let mut x: i32 = 0;
    while x < grid.w
        invariant
            0 <= x <= grid.w,
            forall|q: Position|
                0 <= q.x < x && 0 <= q.y < grid.h ==> #[trigger] occupied(
                    snake.body@,
                    foods@,
                    q,
                ),
        decreases grid.w - x,
    {
        let mut y: i32 = 0;
        while y < grid.h
            invariant
                0 <= y <= grid.h,
                forall|q: Position|
                    0 <= q.x < x && 0 <= q.y < grid.h ==> #[trigger] occupied(
                        snake.body@,
                        foods@,
                        q,
                    ),
                forall|q: Position|
                    q.x == x && 0 <= q.y < y ==> #[trigger] occupied(snake.body@, foods@, q),
            decreases grid.h - y,
        {
            let cand = Position { x, y };
            if !snake_contains(snake, cand) && !foods_contain(foods, cand) {
                return cand;
            }
            y += 1;
        }
        x += 1;
    }
    proof {
        lemma_free_cell_exists(snake.body@, foods@, *grid);
        assert(false);
    }
    Position { x: 0, y: 0 }
}

/// Places the single-mode food on a cell that is on the grid and not on
/// the snake.
pub(crate) fn spawn_food<R: RngLike>(grid: &GridSize, snake: &Snake, rng: &mut R) -> (p: Position)
    requires
        1 <= grid.w,
        1 <= grid.h,
        snake.body@.len() < grid.w * grid.h,
    ensures
        pos_in_grid(p, *grid),
        !snake.body@.contains(p),
{
    let no_foods: Vec<Food> = Vec::new();
    place_on_free_cell(grid, snake, &no_foods, rng)
}

/// The fixed food-type distribution over a roll in `[0, 100)`: rolls
/// below 70 give `Normal`, below 95 `Golden`, the rest `Special`.
pub open spec fn spec_food_type_for_roll(roll: u32) -> FoodType {
    if roll < 70 {
        FoodType::Normal
    } else if roll < 95 {
        FoodType::Golden
    } else {
        FoodType::Special
    }
}

/// Maps a roll to its food type, exactly as the distribution states.
fn food_type_for_roll(roll: u32) -> (t: FoodType)
    ensures
        t == spec_food_type_for_roll(roll),
{
    if roll < 70 {
        FoodType::Normal
    } else if roll < 95 {
        FoodType::Golden
    } else {
        FoodType::Special
    }
}

/// Rolls the kind of a fresh food: Normal with 70%, Golden with 25% and
/// Special with 5% probability.
pub(crate) fn determine_food_type<R: RngLike>(rng: &mut R) -> FoodType {
    let roll: u32 = rng.next_u32() % 100;
    food_type_for_roll(roll)
}

/// Places one typed food on a cell free of the snake and of the foods
/// already on the grid.
pub(crate) fn spawn_food_with_type<R: RngLike>(
    grid: &GridSize,
    snake: &Snake,
    rng: &mut R,
    existing_foods: &Vec<Food>,
) -> (f: Food)
    requires
        1 <= grid.w,
        1 <= grid.h,
        snake.body@.len() + existing_foods@.len() < grid.w * grid.h,
    ensures
        pos_in_grid(f.position, *grid),
        !snake.body@.contains(f.position),
        !foods_at(existing_foods@, f.position),
{
    let food_type = determine_food_type(rng);
    let position = place_on_free_cell(grid, snake, existing_foods, rng);
    Food { position, food_type }
}

/// Populates a fresh grid with 3 to 5 typed foods on pairwise distinct
/// cells, none of them on the snake.
#[verifier::loop_isolation(false)]
pub(crate) fn spawn_initial_foods<R: RngLike>(
    grid: &GridSize,
    snake: &Snake,
    rng: &mut R,
) -> (foods: Vec<Food>)
    requires
        1 <= grid.w,
        1 <= grid.h,
        snake.body@.len() == 1,
        grid.w * grid.h >= 6,
    ensures
        3 <= foods@.len() <= 5,
        forall|i: int|
            0 <= i < foods@.len() ==> pos_in_grid((#[trigger] foods@[i]).position, *grid),
        forall|i: int|
            0 <= i < foods@.len() ==> !snake.body@.contains((#[trigger] foods@[i]).position),
        forall|i: int, j: int|
            0 <= i < j < foods@.len() ==> (#[trigger] foods@[i]).position != (
            #[trigger] foods@[j]).position,
{
    let mut foods: Vec<Food> = Vec::new();
    let num: u32 = 3 + (rng.next_u32() % 3);
    let mut k: u32 = 0;
    while k < num
        invariant
            k <= num,
            foods@.len() == k,
            forall|i: int|
                0 <= i < foods@.len() ==> pos_in_grid((#[trigger] foods@[i]).position, *grid),
            forall|i: int|
                0 <= i < foods@.len() ==> !snake.body@.contains((#[trigger] foods@[i]).position),
            forall|i: int, j: int|
                0 <= i < j < foods@.len() ==> (#[trigger] foods@[i]).position != (
                #[trigger] foods@[j]).position,
        decreases num - k,
    {
        let f = spawn_food_with_type(grid, snake, rng, &foods);
        foods.push(f);
        k += 1;
    }
    foods
}

} // verus!
