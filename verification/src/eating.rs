//! Grazing: prey animals eat the plants within their reach.

use crate::energy::{after_gain, Energy};
use crate::geometry::Point;
use std::collections::HashSet;
use vstd::prelude::*;

verus! {

/// How close a plant must be to be eaten, in the units of a world position.
pub const EATING_DISTANCE: u32 = 1_500;

/// Energy that a prey animal gains from one plant.
pub const ENERGY_GAIN_FROM_PLANT: u64 = 10_000;

/// Whether a plant at `plant` is within reach of an animal at `animal`.
pub open spec fn in_reach(animal: Point, plant: Point) -> bool {
    animal.spec_dist_sq(plant) <= EATING_DISTANCE * EATING_DISTANCE
}

/// The first plant from index `j` on that is within reach of `animal` and
/// not among the `taken`; the number of plants if there is none.
pub open spec fn first_free(animal: Point, plants: Seq<Point>, taken: Seq<usize>, j: int) -> int
    decreases plants.len() - j,
{
    if j < 0 || j >= plants.len() {
        plants.len() as int
    } else if in_reach(animal, plants[j]) && !taken.contains(j as usize) {
        j
    } else {
        first_free(animal, plants, taken, j + 1)
    }
}

/// The plants that the first `n` animals eat, in the order in which they
/// are eaten. Each animal in turn eats the first plant within its reach
/// that no animal before it has eaten, or none.
pub open spec fn eaten_by(animals: Seq<(Point, Energy)>, plants: Seq<Point>, n: int) -> Seq<usize>
    decreases n,
{
    if n <= 0 {
        Seq::empty()
    } else {
        let before = eaten_by(animals, plants, n - 1);
        let j = first_free(animals[n - 1].0, plants, before, 0);
        if j < plants.len() {
            before.push(j as usize)
        } else {
            before
        }
    }
}

/// Animal `k` after grazing: where it found a plant, its energy is higher
/// by the gain from one plant, up to its capacity; it stays where it was.
pub open spec fn after_grazing(
    animals: Seq<(Point, Energy)>,
    plants: Seq<Point>,
    k: int,
) -> (Point, Energy) {
    let (at, e) = animals[k];
    if first_free(at, plants, eaten_by(animals, plants, k), 0) < plants.len() {
        (
            at,
            Energy {
                current: after_gain(e.current as int, e.max as int, ENERGY_GAIN_FROM_PLANT as int) as u64,
                ..e
            },
        )
    } else {
        (at, e)
    }
}

/// The first free plant lies at or behind the start of the search, is
/// within reach and not taken, and no plant before it is both.
pub proof fn lemma_first_free(animal: Point, plants: Seq<Point>, taken: Seq<usize>, j: int)
    requires
        0 <= j <= plants.len(),
    ensures
        j <= first_free(animal, plants, taken, j) <= plants.len(),
        first_free(animal, plants, taken, j) < plants.len() ==> in_reach(
            animal,
            plants[first_free(animal, plants, taken, j)],
        ) && !taken.contains(first_free(animal, plants, taken, j) as usize),
        forall|i: int|
            j <= i < first_free(animal, plants, taken, j) ==> !(in_reach(animal, plants[i])
                && !taken.contains(i as usize)),
    decreases plants.len() - j,
{
    if j < plants.len() && !(in_reach(animal, plants[j]) && !taken.contains(j as usize)) {
        lemma_first_free(animal, plants, taken, j + 1);
    }
}

/// No plant is eaten twice: the plants that the animals eat are all
/// different, and each is one of the plants.
pub proof fn lemma_eaten_once(animals: Seq<(Point, Energy)>, plants: Seq<Point>, n: int)
    requires
        plants.len() <= usize::MAX,
    ensures
        forall|k: int, l: int|
            0 <= k < l < eaten_by(animals, plants, n).len() ==> eaten_by(animals, plants, n)[k]
                != eaten_by(animals, plants, n)[l],
        forall|k: int|
            0 <= k < eaten_by(animals, plants, n).len() ==> eaten_by(animals, plants, n)[k]
                < plants.len(),
        eaten_by(animals, plants, n).len() <= n || n < 0,
    decreases n,
{
    if n > 0 {
        lemma_eaten_once(animals, plants, n - 1);
        let before = eaten_by(animals, plants, n - 1);
        lemma_first_free(animals[n - 1].0, plants, before, 0);
        let j = first_free(animals[n - 1].0, plants, before, 0);
        if j < plants.len() {
            let now = before.push(j as usize);
        }
    }
}

/// Has every animal graze, in turn: it eats the first plant within its
/// reach that has not been eaten in this round, and gains from it up to
/// its capacity. The indices of the eaten plants are returned in the order
/// in which they were eaten; no plant is eaten twice.
pub fn eating(animals: &mut Vec<(Point, Energy)>, plants: &Vec<Point>) -> (eaten: Vec<usize>)
    ensures
        eaten@ == eaten_by(old(animals)@, plants@, old(animals)@.len() as int),
        final(animals)@.len() == old(animals)@.len(),
        forall|k: int|
            0 <= k < old(animals)@.len() ==> #[trigger] final(animals)@[k] == after_grazing(
                old(animals)@,
                plants@,
                k,
            ),
{
    broadcast use vstd::std_specs::hash::group_hash_axioms;

    let mut eaten: Vec<usize> = Vec::new();
    let mut taken: HashSet<usize> = HashSet::new();
    let m: usize = plants.len();
    let n: usize = animals.len();
    let reach: u128 = (EATING_DISTANCE as u128) * (EATING_DISTANCE as u128);
    let mut k: usize = 0;
    while k < n
        invariant
            k <= n,
            n == old(animals)@.len(),
            animals@.len() == n,
            m == plants@.len(),
            reach == EATING_DISTANCE * EATING_DISTANCE,
            eaten@ == eaten_by(old(animals)@, plants@, k as int),
            forall|i: usize| #[trigger] taken@.contains(i) <==> eaten@.contains(i),
            forall|i: int|
                0 <= i < k ==> #[trigger] animals@[i] == after_grazing(old(animals)@, plants@, i),
            forall|i: int| k <= i < n ==> #[trigger] animals@[i] == old(animals)@[i],
        decreases n - k,
    {
        let at: Point = animals[k].0;
        let mut j: usize = 0;
        let mut found: bool = false;
        while j < m && !found
            invariant
                j <= m,
                m == plants@.len(),
                reach == EATING_DISTANCE * EATING_DISTANCE,
                forall|i: usize| #[trigger] taken@.contains(i) <==> eaten@.contains(i),
                !found ==> first_free(at, plants@, eaten@, 0) == first_free(
                    at,
                    plants@,
                    eaten@,
                    j as int,
                ),
                found ==> j < m && first_free(at, plants@, eaten@, 0) == j,
            decreases m - j + (if found { 0int } else { 1int }),
        {
            if !taken.contains(&j) && at.dist_sq(&plants[j]) <= reach {
                found = true;
            } else {
                j = j + 1;
            }
        }
        if found {
            let ghost before = eaten@;
            taken.insert(j);
            eaten.push(j);
            let mut e: Energy = animals[k].1;
            e.gain(ENERGY_GAIN_FROM_PLANT);
            animals[k] = (at, e);
            proof {
                assert forall|i: usize| #[trigger] taken@.contains(i) <==> eaten@.contains(i) by {
                    if i == j {
                        assert(eaten@[before.len() as int] == j);
                    } else {
                        if before.contains(i) {
                            let x = choose|x: int| 0 <= x < before.len() && before[x] == i;
                            assert(eaten@[x] == i);
                        }
                        if eaten@.contains(i) {
                            let x = choose|x: int| 0 <= x < eaten@.len() && eaten@[x] == i;
                            assert(before[x] == i);
                        }
                    }
                }
            }
        }
        k = k + 1;
    }
    eaten
}

} // verus!
