//! Plant growth: plants spread to neighbouring cells at random, with a
//! leaning towards carrying on straight lines.

use crate::geometry::Position;
use crate::random::roll;
use vstd::prelude::*;

verus! {

/// Chance per second that a plant grows, in thousandths.
pub const GROWTH_CHANCE_PER_SECOND: u32 = 3_000;

/// Chance that a growing plant grows along an axis and not diagonally, in
/// thousandths.
pub const CARDINAL_WEIGHT: u32 = 900;

/// Weight of a direction that carries on a line of plants; any other
/// direction along an axis has weight 1.
pub const LINE_WEIGHT: u32 = 16;

/// Number of outcomes of a roll for a chance in thousandths.
pub const ROLL_SIDES: u32 = 1_000;

/// Whether one of `cells` is the cell `(x, y)`.
pub open spec fn occupied(cells: Seq<Position>, x: int, y: int) -> bool {
    exists|k: int| 0 <= k < cells.len() && (#[trigger] cells[k]).x == x && cells[k].y == y
}

/// Whether one of `cells` is the cell `(x, y)`.
pub fn is_occupied(cells: &Vec<Position>, x: i64, y: i64) -> (b: bool)
    ensures
        b == occupied(cells@, x as int, y as int),
{
    let mut k: usize = 0;
    while k < cells.len()
        invariant
            k <= cells.len(),
            forall|j: int| 0 <= j < k ==> !((#[trigger] cells@[j]).x == x && cells@[j].y == y),
        decreases cells.len() - k,
    {
        if cells[k].x as i64 == x && cells[k].y as i64 == y {
            return true;
        }
        k = k + 1;
    }
    false
}

/// The four directions along the axes, in the order in which they are
/// weighed: east, west, north, south.
pub open spec fn cardinal(i: int) -> (int, int) {
    if i == 0 {
        (1, 0)
    } else if i == 1 {
        (-1, 0)
    } else if i == 2 {
        (0, 1)
    } else {
        (0, -1)
    }
}

/// The four diagonal directions, in the order in which a roll picks them.
pub open spec fn diagonal(i: int) -> (int, int) {
    if i == 0 {
        (1, 1)
    } else if i == 1 {
        (-1, 1)
    } else if i == 2 {
        (1, -1)
    } else {
        (-1, -1)
    }
}

/// The weight of growing from `cell` in the direction `cardinal(i)`: 16 where
/// the cell behind, opposite to the direction, holds a plant, so that the
/// growth carries on a line; 1 otherwise.
pub open spec fn weight(plants: Seq<Position>, cell: Position, i: int) -> int {
    if occupied(plants, cell.x - cardinal(i).0, cell.y - cardinal(i).1) {
        LINE_WEIGHT as int
    } else {
        1
    }
}

/// The weights of the four directions along the axes.
#[derive(Clone, Copy, Debug, PartialEq, Eq, Structural)]
pub struct Weights {
    pub east: u32,
    pub west: u32,
    pub north: u32,
    pub south: u32,
}

impl Weights {
    /// The sum of the four weights.
    pub open spec fn total(self) -> int {
        self.east + self.west + self.north + self.south
    }

    /// The direction that `choice` falls on when the weights are laid end
    /// to end, as an index for `cardinal`; east where `choice` lies beyond
    /// them all.
    pub open spec fn picked(self, choice: int) -> int {
        if choice < self.east {
            0
        } else if choice < self.east + self.west {
            1
        } else if choice < self.east + self.west + self.north {
            2
        } else if choice < self.total() {
            3
        } else {
            0
        }
    }
}

/// The weights of the four directions of growth from `cell` among `plants`.
pub open spec fn weights_at(plants: Seq<Position>, cell: Position) -> Weights {
    Weights {
        east: weight(plants, cell, 0) as u32,
        west: weight(plants, cell, 1) as u32,
        north: weight(plants, cell, 2) as u32,
        south: weight(plants, cell, 3) as u32,
    }
}

/// Weighs the four directions of growth from `cell`: a direction whose
/// opposite neighbour holds a plant weighs 16, any other 1.
pub fn cardinal_weights(plants: &Vec<Position>, cell: Position) -> (w: Weights)
    ensures
        w == weights_at(plants@, cell),
        4 <= w.total() <= 64,
{
    let x: i64 = cell.x as i64;
    let y: i64 = cell.y as i64;
    let east: u32 = if is_occupied(plants, x - 1, y) { LINE_WEIGHT } else { 1 };
    let west: u32 = if is_occupied(plants, x + 1, y) { LINE_WEIGHT } else { 1 };
    let north: u32 = if is_occupied(plants, x, y - 1) { LINE_WEIGHT } else { 1 };
    let south: u32 = if is_occupied(plants, x, y + 1) { LINE_WEIGHT } else { 1 };
    Weights { east, west, north, south }
}

/// The chance in thousandths that a plant grows within `dt_ms` milliseconds
/// at a rate of `rate` thousandths per second.
pub open spec fn growth_chance(rate: int, dt_ms: int) -> int {
    rate * dt_ms / 1000
}

/// The direction of growth: along an axis, picked by weight, where `branch`
/// is below `cardinal_weight`; else the diagonal that `pick` names.
pub open spec fn direction(w: Weights, cardinal_weight: u32, branch: u32, pick: u32) -> (int, int) {
    if branch < cardinal_weight {
        cardinal(w.picked(pick as int))
    } else {
        diagonal(pick as int)
    }
}

/// Where a plant comes up when `cell` grows by `step`: nowhere if that
/// leaves the grid, or if the cell is taken by one of `plants` or by one of
/// the `sprouts` of this tick.
pub open spec fn sprout_at(
    plants: Seq<Position>,
    sprouts: Seq<Position>,
    cell: Position,
    step: (int, int),
) -> Option<Position> {
    let x = cell.x + step.0;
    let y = cell.y + step.1;
    if i32::MIN <= x <= i32::MAX && i32::MIN <= y <= i32::MAX && !occupied(plants, x, y)
        && !occupied(sprouts, x, y) {
        Some(Position { x: x as i32, y: y as i32 })
    } else {
        None
    }
}

/// What the plant at `cell` brings forth on the rolls `grow`, `branch` and
/// `pick`: nothing unless `grow` is below `chance`; else the sprout in the
/// direction that `branch` and `pick` give.
pub open spec fn grown(
    plants: Seq<Position>,
    sprouts: Seq<Position>,
    cell: Position,
    chance: int,
    cardinal_weight: u32,
    grow: u32,
    branch: u32,
    pick: u32,
) -> Option<Position> {
    if grow < chance {
        sprout_at(
            plants,
            sprouts,
            cell,
            direction(weights_at(plants, cell), cardinal_weight, branch, pick),
        )
    } else {
        None
    }
}

/// The direction along an axis that `choice` falls on.
pub fn pick_cardinal(w: &Weights, choice: u32) -> (step: (i64, i64))
    requires
        w.total() <= u32::MAX,
    ensures
        step.0 == cardinal(w.picked(choice as int)).0,
        step.1 == cardinal(w.picked(choice as int)).1,
{
    if choice < w.east {
        (1, 0)
    } else if choice < w.east + w.west {
        (-1, 0)
    } else if choice < w.east + w.west + w.north {
        (0, 1)
    } else if choice < w.east + w.west + w.north + w.south {
        (0, -1)
    } else {
        (1, 0)
    }
}

/// The diagonal direction that `choice` names.
pub fn pick_diagonal(choice: u32) -> (step: (i64, i64))
    ensures
        step.0 == diagonal(choice as int).0,
        step.1 == diagonal(choice as int).1,
{
    if choice == 0 {
        (1, 1)
    } else if choice == 1 {
        (-1, 1)
    } else if choice == 2 {
        (1, -1)
    } else {
        (-1, -1)
    }
}

/// The sprout of `cell` in the direction `step`, if the cell it falls on is
/// on the grid and free.
pub fn sprout(
    plants: &Vec<Position>,
    sprouts: &Vec<Position>,
    cell: Position,
    step: (i64, i64),
) -> (s: Option<Position>)
    requires
        -1 <= step.0 <= 1,
        -1 <= step.1 <= 1,
    ensures
        s == sprout_at(plants@, sprouts@, cell, (step.0 as int, step.1 as int)),
{
    let x: i64 = cell.x as i64 + step.0;
    let y: i64 = cell.y as i64 + step.1;
    if x < i32::MIN as i64 || x > i32::MAX as i64 || y < i32::MIN as i64 || y > i32::MAX as i64 {
        return None;
    }
    if is_occupied(plants, x, y) || is_occupied(sprouts, x, y) {
        return None;
    }
    Some(Position { x: x as i32, y: y as i32 })
}

/// What the plant at `cell` brings forth on three given rolls, among the
/// plants that stood at the start of the tick and the sprouts that came up
/// in it so far. `chance` and `cardinal_weight` are in thousandths.
pub fn grow_from(
    plants: &Vec<Position>,
    sprouts: &Vec<Position>,
    cell: Position,
    chance: u64,
    cardinal_weight: u32,
    grow: u32,
    branch: u32,
    pick: u32,
) -> (s: Option<Position>)
    ensures
        s == grown(plants@, sprouts@, cell, chance as int, cardinal_weight, grow, branch, pick),
{
    if grow as u64 >= chance {
        return None;
    }
    let step: (i64, i64) = if branch < cardinal_weight {
        let w = cardinal_weights(plants, cell);
        pick_cardinal(&w, pick)
    } else {
        pick_diagonal(pick)
    };
    sprout(plants, sprouts, cell, step)
}

/// The chance in thousandths that a plant grows within `dt_ms` milliseconds
/// at `rate` thousandths per second; a chance beyond certainty counts as
/// certainty.
pub fn chance_of_growth(rate: u32, dt_ms: u64) -> (chance: u64)
    ensures
        chance == (if growth_chance(rate as int, dt_ms as int) < ROLL_SIDES {
            growth_chance(rate as int, dt_ms as int)
        } else {
            ROLL_SIDES as int
        }),
{
    assert(0 <= (rate as int) * (dt_ms as int) <= u128::MAX) by (nonlinear_arith)
        requires
            0 <= rate <= u32::MAX,
            0 <= dt_ms <= u64::MAX,
    ;
    let c: u128 = (rate as u128) * (dt_ms as u128) / 1000u128;
    if c < ROLL_SIDES as u128 {
        c as u64
    } else {
        ROLL_SIDES as u64
    }
}

/// Whether the cell `(x, y)` touches `cell`, along an axis or diagonally.
pub open spec fn touches(cell: Position, x: int, y: int) -> bool {
    &&& cell.x - 1 <= x <= cell.x + 1
    &&& cell.y - 1 <= y <= cell.y + 1
    &&& !(x == cell.x && y == cell.y)
}

/// Whether the cell `(x, y)` touches one of `plants`.
pub open spec fn touches_one(plants: Seq<Position>, x: int, y: int) -> bool {
    exists|i: int| 0 <= i < plants.len() && touches(#[trigger] plants[i], x, y)
}

/// Whether `sprouts` can be the growth of one tick among `plants`: each
/// sprout touches a plant, none falls on a plant, and no two fall on the
/// same cell.
pub open spec fn valid_growth(plants: Seq<Position>, sprouts: Seq<Position>) -> bool {
    &&& forall|k: int|
        0 <= k < sprouts.len() ==> !occupied(plants, (#[trigger] sprouts[k]).x as int, sprouts[k].y as int)
    &&& forall|k: int|
        0 <= k < sprouts.len() ==> touches_one(
            plants,
            (#[trigger] sprouts[k]).x as int,
            sprouts[k].y as int,
        )
    &&& forall|k: int, l: int| 0 <= k < l < sprouts.len() ==> sprouts[k] != sprouts[l]
}

/// A sprout that comes up touches the cell it grew from and falls neither
/// on a plant nor on an earlier sprout.
pub proof fn lemma_grown(
    plants: Seq<Position>,
    sprouts: Seq<Position>,
    cell: Position,
    chance: int,
    cardinal_weight: u32,
    grow: u32,
    branch: u32,
    pick: u32,
)
    ensures
        grown(plants, sprouts, cell, chance, cardinal_weight, grow, branch, pick) matches Some(s) ==> {
            &&& grow < chance
            &&& touches(cell, s.x as int, s.y as int)
            &&& !occupied(plants, s.x as int, s.y as int)
            &&& !occupied(sprouts, s.x as int, s.y as int)
        },
{
}

/// The rolls on which one plant grows: whether it grows at all, whether
/// along an axis or diagonally, and in which direction.
#[derive(Clone, Copy, Debug, PartialEq, Eq, Structural)]
pub struct Rolls {
    pub grow: u32,
    pub branch: u32,
    pub pick: u32,
}

/// The chance in thousandths that a plant grows within `dt_ms` milliseconds
/// at `rate` thousandths per second, certainty at most.
pub open spec fn capped_chance(rate: int, dt_ms: int) -> int {
    if growth_chance(rate, dt_ms) < ROLL_SIDES {
        growth_chance(rate, dt_ms)
    } else {
        ROLL_SIDES as int
    }
}

/// Whether `rolls` can come up for the plant at `cell`: the first two are
/// rolls for a chance in thousandths, and the third names a direction, by
/// weight among those along the axes or as one of the four diagonals.
pub open spec fn can_come_up(
    rolls: Rolls,
    plants: Seq<Position>,
    cell: Position,
    cardinal_weight: u32,
) -> bool {
    &&& rolls.grow < ROLL_SIDES
    &&& rolls.branch < ROLL_SIDES
    &&& rolls.branch < cardinal_weight ==> rolls.pick < weights_at(plants, cell).total()
    &&& rolls.branch >= cardinal_weight ==> rolls.pick < 4
}

/// The sprouts that the first `n` plants bring forth, in order, where plant
/// `k` grows on `rolls[k]`: each plant in turn brings forth what `grown`
/// gives among the plants and the sprouts that came up before it.
pub open spec fn growth_of(
    plants: Seq<Position>,
    chance: int,
    cardinal_weight: u32,
    rolls: Seq<Rolls>,
    n: int,
) -> Seq<Position>
    decreases n,
{
    if n <= 0 {
        Seq::empty()
    } else {
        let before = growth_of(plants, chance, cardinal_weight, rolls, n - 1);
        match grown(
            plants,
            before,
            plants[n - 1],
            chance,
            cardinal_weight,
            rolls[n - 1].grow,
            rolls[n - 1].branch,
            rolls[n - 1].pick,
        ) {
            Some(s) => before.push(s),
            None => before,
        }
    }
}

/// Whether `sprouts` is the growth of one tick among `plants` on some
/// rolls: one set of rolls for each plant, each such as can come up.
pub open spec fn grows_into(
    plants: Seq<Position>,
    chance: int,
    cardinal_weight: u32,
    sprouts: Seq<Position>,
) -> bool {
    exists|rolls: Seq<Rolls>|
        {
            &&& rolls.len() == plants.len()
            &&& forall|k: int|
                0 <= k < plants.len() ==> can_come_up(
                    #[trigger] rolls[k],
                    plants,
                    plants[k],
                    cardinal_weight,
                )
            &&& sprouts == #[trigger] growth_of(
                plants,
                chance,
                cardinal_weight,
                rolls,
                plants.len() as int,
            )
        }
}

/// The growth of the first `n` plants goes by their own rolls alone.
pub proof fn lemma_growth_by_own_rolls(
    plants: Seq<Position>,
    chance: int,
    cardinal_weight: u32,
    rolls: Seq<Rolls>,
    others: Seq<Rolls>,
    n: int,
)
    requires
        n <= rolls.len(),
        n <= others.len(),
        forall|k: int| 0 <= k < n ==> rolls[k] == others[k],
    ensures
        growth_of(plants, chance, cardinal_weight, rolls, n) == growth_of(
            plants,
            chance,
            cardinal_weight,
            others,
            n,
        ),
    decreases n,
{
    if n > 0 {
        lemma_growth_by_own_rolls(plants, chance, cardinal_weight, rolls, others, n - 1);
    }
}

/// Whatever the rolls, the growth of a tick is valid, and no plant brings
/// forth more than one sprout.
pub proof fn lemma_growth_valid(
    plants: Seq<Position>,
    chance: int,
    cardinal_weight: u32,
    rolls: Seq<Rolls>,
    n: int,
)
    requires
        0 <= n <= plants.len(),
    ensures
        valid_growth(plants, growth_of(plants, chance, cardinal_weight, rolls, n)),
        growth_of(plants, chance, cardinal_weight, rolls, n).len() <= n,
    decreases n,
{
    if n > 0 {
        lemma_growth_valid(plants, chance, cardinal_weight, rolls, n - 1);
        let before = growth_of(plants, chance, cardinal_weight, rolls, n - 1);
        let now = growth_of(plants, chance, cardinal_weight, rolls, n);
        let r = rolls[n - 1];
        lemma_grown(plants, before, plants[n - 1], chance, cardinal_weight, r.grow, r.branch, r.pick);
        if now.len() > before.len() {
            let s = now[before.len() as int];
            assert(touches(plants[n - 1], s.x as int, s.y as int));
            assert forall|k: int, l: int| 0 <= k < l < now.len() implies now[k] != now[l] by {
                if l == before.len() {
                    assert(before[k] == now[k]);
                }
            }
            assert forall|k: int| 0 <= k < now.len() implies !occupied(
                plants,
                (#[trigger] now[k]).x as int,
                now[k].y as int,
            ) by {
                if k < before.len() {
                    assert(before[k] == now[k]);
                }
            }
            assert forall|k: int| 0 <= k < now.len() implies touches_one(
                plants,
                (#[trigger] now[k]).x as int,
                now[k].y as int,
            ) by {
                if k < before.len() {
                    assert(before[k] == now[k]);
                }
            }
        }
    }
}

/// Where a plant is certain to grow, and every cell around it is free and
/// on the grid, it brings forth a sprout whatever the rolls.
pub proof fn lemma_certain_growth(
    plants: Seq<Position>,
    sprouts: Seq<Position>,
    cell: Position,
    cardinal_weight: u32,
    rolls: Rolls,
)
    requires
        rolls.grow < ROLL_SIDES,
        forall|x: int, y: int|
            touches(cell, x, y) ==> i32::MIN <= x <= i32::MAX && i32::MIN <= y <= i32::MAX
                && !occupied(plants, x, y) && !occupied(sprouts, x, y),
    ensures
        grown(
            plants,
            sprouts,
            cell,
            ROLL_SIDES as int,
            cardinal_weight,
            rolls.grow,
            rolls.branch,
            rolls.pick,
        ) is Some,
{
    let step = direction(weights_at(plants, cell), cardinal_weight, rolls.branch, rolls.pick);
    assert(touches(cell, cell.x + step.0, cell.y + step.1));
}

/// The rolls of plant `k`; a plant for which none were made rolls as one
/// that does not grow.
pub open spec fn rolls_at(rolls: Seq<Rolls>, k: int) -> Rolls {
    if 0 <= k < rolls.len() {
        rolls[k]
    } else {
        Rolls { grow: ROLL_SIDES, branch: 0, pick: 0 }
    }
}

/// One set of rolls for each of `n` plants, from `rolls` as far as they go.
pub open spec fn rolls_for_all(rolls: Seq<Rolls>, n: int) -> Seq<Rolls> {
    Seq::new(n as nat, |k: int| rolls_at(rolls, k))
}

/// One tick of growth on given rolls. Every plant of `plants`, in turn,
/// brings forth what `grown` gives on its rolls, `rolls[k]` for plant `k`,
/// at the chance that `growth_rate` gives for `dt_ms` milliseconds; a plant
/// for which there are no rolls does not grow. The cells of the new plants
/// are returned.
pub fn plant_growth_on(
    plants: &Vec<Position>,
    growth_rate: u32,
    cardinal_weight: u32,
    dt_ms: u64,
    rolls: &Vec<Rolls>,
) -> (sprouts: Vec<Position>)
    ensures
        sprouts@ == growth_of(
            plants@,
            capped_chance(growth_rate as int, dt_ms as int),
            cardinal_weight,
            rolls_for_all(rolls@, plants@.len() as int),
            plants@.len() as int,
        ),
        valid_growth(plants@, sprouts@),
{
    let mut sprouts: Vec<Position> = Vec::new();
    let chance: u64 = chance_of_growth(growth_rate, dt_ms);
    let ghost all = rolls_for_all(rolls@, plants@.len() as int);
    let mut i: usize = 0;
    while i < plants.len()
        invariant
            i <= plants.len(),
            chance == capped_chance(growth_rate as int, dt_ms as int),
            all == rolls_for_all(rolls@, plants@.len() as int),
            sprouts@ == growth_of(plants@, chance as int, cardinal_weight, all, i as int),
        decreases plants.len() - i,
    {
        if i < rolls.len() {
            let mine: Rolls = rolls[i];
            match grow_from(
                plants,
                &sprouts,
                plants[i],
                chance,
                cardinal_weight,
                mine.grow,
                mine.branch,
                mine.pick,
            ) {
                Some(s) => {
                    sprouts.push(s);
                },
                None => {},
            }
        }
        i = i + 1;
    }
    proof {
        lemma_growth_valid(plants@, chance as int, cardinal_weight, all, plants@.len() as int);
    }
    sprouts
}

/// One tick of growth. Every plant of `plants`, in turn, grows with the
/// chance that `growth_rate` gives for `dt_ms` milliseconds, along an axis
/// with the chance `cardinal_weight` and diagonally otherwise; the rolls
/// come from the thread's random generator. The cells of the new plants
/// are returned: what `grown` gives plant by plant on the rolls that came
/// up. A cell that held a plant at the start of the tick is never grown
/// into, and of two plants that grow into the same free cell in one tick
/// only the first brings forth a sprout.
pub fn plant_growth(
    plants: &Vec<Position>,
    growth_rate: u32,
    cardinal_weight: u32,
    dt_ms: u64,
) -> (sprouts: Vec<Position>)
    ensures
        grows_into(
            plants@,
            capped_chance(growth_rate as int, dt_ms as int),
            cardinal_weight,
            sprouts@,
        ),
        valid_growth(plants@, sprouts@),
        sprouts@.len() <= plants@.len(),
{
    let mut sprouts: Vec<Position> = Vec::new();
    let chance: u64 = chance_of_growth(growth_rate, dt_ms);
    let ghost mut rolls: Seq<Rolls> = Seq::empty();
    let mut i: usize = 0;
    while i < plants.len()
        invariant
            i <= plants.len(),
            chance == capped_chance(growth_rate as int, dt_ms as int),
            rolls.len() == i,
            forall|k: int|
                0 <= k < i ==> can_come_up(#[trigger] rolls[k], plants@, plants@[k], cardinal_weight),
            sprouts@ == growth_of(plants@, chance as int, cardinal_weight, rolls, i as int),
        decreases plants.len() - i,
    {
        let cell: Position = plants[i];
        let grow: u32 = roll(ROLL_SIDES);
        let ghost drawn = rolls;
        let ghost came_up = Rolls { grow, branch: 0, pick: 0 };
        if (grow as u64) < chance {
            let branch: u32 = roll(ROLL_SIDES);
            let pick: u32 = if branch < cardinal_weight {
                let w = cardinal_weights(plants, cell);
                roll(w.east + w.west + w.north + w.south)
            } else {
                roll(4)
            };
            proof {
                came_up = Rolls { grow, branch, pick };
            }
            match grow_from(plants, &sprouts, cell, chance, cardinal_weight, grow, branch, pick) {
                Some(s) => {
                    sprouts.push(s);
                },
                None => {},
            }
        }
        proof {
            rolls = drawn.push(came_up);
            lemma_growth_by_own_rolls(
                plants@,
                chance as int,
                cardinal_weight,
                drawn,
                rolls,
                i as int,
            );
        }
        i = i + 1;
    }
    proof {
        lemma_growth_valid(
            plants@,
            chance as int,
            cardinal_weight,
            rolls,
            plants@.len() as int,
        );
    }
    sprouts
}

} // verus!
