//! A uniform bucket grid over world positions, rebuilt every tick, that
//! answers neighbour and nearest-agent queries.

use crate::config::Config;
use crate::geometry::Point;
use vstd::prelude::*;

verus! {

/// Side of one grid cell, in the units of a world position.
pub const GRID_CELL_SIZE: i32 = 10_000;

/// Marker for agents that take part in the spatial index.
#[derive(Clone, Copy, Debug, PartialEq, Eq, Structural)]
pub struct SpatialIndexed;

/// The buckets of a grid: for each occupied cell, the ids of the agents in
/// it.
///
/// They live in a hash map of hash sets that Verus does not look into;
/// `grid_cells` names what they hold.
#[verifier::external_body]
pub struct Buckets {
    cells: bevy::utils::HashMap<(i32, i32), bevy::utils::HashSet<u64>>,
}

/// The bucket grid: square cells of one size, and for each occupied cell
/// the ids of the agents in it.
pub struct SpatialGrid {
    buckets: Buckets,
    cell_size: i32,
}

/// A set of agent ids, as a query hands it out.
///
/// It is a hash set that Verus does not look into; `id_set_items` names what
/// it holds.
#[verifier::external_body]
pub struct IdSet {
    ids: bevy::utils::HashSet<u64>,
}

/// What the buckets hold: each occupied cell with the ids stored under it.
pub uninterp spec fn grid_cells(buckets: Buckets) -> Map<(i32, i32), Set<u64>>;

/// The ids that a set holds.
pub uninterp spec fn id_set_items(ids: IdSet) -> Set<u64>;

/// The buckets of a grid in which no cell is occupied.
pub open spec fn empty_cells() -> Map<(i32, i32), Set<u64>> {
    Map::empty()
}

/// The ids stored under `cell`, none where the cell is not occupied.
pub open spec fn bucket(cells: Map<(i32, i32), Set<u64>>, cell: (i32, i32)) -> Set<u64> {
    if cells.contains_key(cell) {
        cells[cell]
    } else {
        Set::empty()
    }
}

/// Floor of `a / size`.
pub open spec fn cell_index(a: int, size: int) -> int {
    a / size
}

/// The cell of side `size` that holds `pos`.
pub open spec fn cell_of(pos: Point, size: int) -> (i32, i32) {
    (cell_index(pos.x as int, size) as i32, cell_index(pos.y as int, size) as i32)
}

/// The cell of side `cell_size` that holds `pos`: each coordinate divided by
/// the cell size and rounded down.
pub fn to_grid_coords(pos: Point, cell_size: i32) -> (cell: (i32, i32))
    requires
        cell_size > 0,
    ensures
        cell == cell_of(pos, cell_size as int),
        cell.0 * cell_size <= pos.x < (cell.0 + 1) * cell_size,
        cell.1 * cell_size <= pos.y < (cell.1 + 1) * cell_size,
{
    (floor_div(pos.x, cell_size), floor_div(pos.y, cell_size))
}

fn floor_div(a: i32, size: i32) -> (q: i32)
    requires
        size > 0,
    ensures
        q == cell_index(a as int, size as int),
        q * size <= a < (q + 1) * size,
{
    let wide: i64 = a as i64;
    let side: i64 = size as i64;
    let q: i64 = if wide >= 0 {
        wide / side
    } else {
        -((-wide + side - 1) / side)
    };
    proof {
        let up = if wide >= 0 { wide as int } else { -wide + side - 1 };
        vstd::arithmetic::div_mod::lemma_fundamental_div_mod(up, side as int);
        vstd::arithmetic::div_mod::lemma_mod_bound(up, side as int);
        let r = a - q * side;
        assert(0 <= r < side && a == q * side + r) by (nonlinear_arith)
            requires
                r == a - q * side,
                up == side * (up / (side as int)) + up % (side as int),
                0 <= up % (side as int) < side,
                wide >= 0 ==> q == up / (side as int) && up == a,
                wide < 0 ==> q == -(up / (side as int)) && up == -a + side - 1,
                side > 0,
        ;
        vstd::arithmetic::div_mod::lemma_fundamental_div_mod_converse_div(
            a as int,
            side as int,
            q as int,
            r,
        );
        assert(q * side <= a < (q + 1) * side) by (nonlinear_arith)
            requires
                a == q * side + r,
                0 <= r < side,
        ;
        assert(-0x8000_0000 <= q <= 0x7fff_ffff) by (nonlinear_arith)
            requires
                q * side <= a < (q + 1) * side,
                side >= 1,
                -0x8000_0000 <= a <= 0x7fff_ffff,
        ;
    }
    q as i32
}

/// Whether one of the first `n` agents has the id `id` and stands in `cell`,
/// the cells being of side `size`.
pub open spec fn indexed_at(
    agents: Seq<(u64, Point)>,
    size: int,
    n: int,
    cell: (i32, i32),
    id: u64,
) -> bool {
    exists|k: int| 0 <= k < n && #[trigger] agents[k].0 == id && cell_of(agents[k].1, size) == cell
}

/// Whether `cell` lies within Chebyshev distance `radius` of `center`.
pub open spec fn within(cell: (i32, i32), center: (i32, i32), radius: int) -> bool {
    &&& center.0 - radius <= cell.0 <= center.0 + radius
    &&& center.1 - radius <= cell.1 <= center.1 + radius
}

/// The ids stored in the cells within Chebyshev distance `radius` of
/// `center`.
pub open spec fn neighbors(
    cells: Map<(i32, i32), Set<u64>>,
    center: (i32, i32),
    radius: int,
) -> Set<u64> {
    Set::new(
        |id: u64|
            exists|cell: (i32, i32)|
                within(cell, center, radius) && #[trigger] bucket(cells, cell).contains(id),
    )
}

/// Whether `cell` comes before column `dx`, row `dy` in a column-by-column
/// walk of the square around `center`.
pub open spec fn scanned(
    cell: (i32, i32),
    center: (i32, i32),
    radius: int,
    dx: int,
    dy: int,
) -> bool {
    &&& within(cell, center, radius)
    &&& (cell.0 - center.0 < dx || (cell.0 - center.0 == dx && cell.1 - center.1 < dy))
}

/// Whether one of the first `n` agents stands in `cell`, the cells being of
/// side `size`.
pub open spec fn occupied(agents: Seq<(u64, Point)>, size: int, n: int, cell: (i32, i32)) -> bool {
    exists|k: int| 0 <= k < n && cell_of(#[trigger] agents[k].1, size) == cell
}

/// Whether `cells`, of side `size`, index exactly the first `n` of `agents`:
/// each under the cell of its position, and no cell occupied but by one of
/// them.
pub open spec fn indexes(
    cells: Map<(i32, i32), Set<u64>>,
    size: int,
    agents: Seq<(u64, Point)>,
    n: int,
) -> bool {
    &&& forall|cell: (i32, i32), id: u64|
        #[trigger] bucket(cells, cell).contains(id) <==> indexed_at(agents, size, n, cell, id)
    &&& forall|cell: (i32, i32)| #[trigger]
        cells.contains_key(cell) <==> occupied(agents, size, n, cell)
}

/// Rebuilds the grid from scratch: afterwards it indexes `agents`, each given
/// as its id and position, and nothing else. Its cells keep their size.
pub fn update_spatial_grid(grid: &mut SpatialGrid, agents: &Vec<(u64, Point)>)
    requires
        old(grid).wf(),
    ensures
        final(grid).wf(),
        final(grid).cell_size() == old(grid).cell_size(),
        indexes(final(grid).cells(), final(grid).cell_size(), agents@, agents@.len() as int),
{
    grid.buckets.clear();
    let size: i32 = grid.cell_size;
    let mut i: usize = 0;
    while i < agents.len()
        invariant
            i <= agents.len(),
            size > 0,
            grid.cell_size == size,
            indexes(grid_cells(grid.buckets), size as int, agents@, i as int),
        decreases agents.len() - i,
    {
        let ghost before = grid_cells(grid.buckets);
        let id: u64 = agents[i].0;
        let here = to_grid_coords(agents[i].1, size);
        grid.buckets.insert(here, id);
        proof {
            let after = grid_cells(grid.buckets);
            assert forall|cell: (i32, i32), other: u64|
                #[trigger] bucket(after, cell).contains(other) <==> indexed_at(
                    agents@,
                    size as int,
                    i + 1,
                    cell,
                    other,
                ) by {
                if bucket(after, cell).contains(other) {
                    if !(cell == here && other == id) {
                        assert(bucket(before, cell).contains(other));
                    }
                }
                if indexed_at(agents@, size as int, i + 1, cell, other) {
                    let k = choose|k: int|
                        0 <= k < i + 1 && #[trigger] agents@[k].0 == other && cell_of(
                            agents@[k].1,
                            size as int,
                        ) == cell;
                    if k < i {
                        assert(bucket(before, cell).contains(other));
                    }
                }
            }
        }
        i = i + 1;
    }
}

/// Whether candidate `k` is, among the first `n` candidates whose id is in
/// `near`, the first of those closest to `pos`.
pub open spec fn first_nearest(
    near: Set<u64>,
    pos: Point,
    candidates: Seq<(u64, Point)>,
    n: int,
    k: int,
) -> bool {
    &&& 0 <= k < n
    &&& near.contains(candidates[k].0)
    &&& forall|j: int|
        0 <= j < n && near.contains(#[trigger] candidates[j].0) ==> {
            &&& pos.spec_dist_sq(candidates[k].1) <= pos.spec_dist_sq(candidates[j].1)
            &&& j < k ==> pos.spec_dist_sq(candidates[k].1) < pos.spec_dist_sq(candidates[j].1)
        }
}

/// What a nearest-agent query over the ids `near` answers: nothing where no
/// candidate is among them, else the id and squared distance of the first
/// closest one.
pub open spec fn nearest_among(
    near: Set<u64>,
    pos: Point,
    candidates: Seq<(u64, Point)>,
    n: int,
    nearest: Option<(u64, u128)>,
) -> bool {
    match nearest {
        None => forall|j: int| 0 <= j < n ==> !near.contains(#[trigger] candidates[j].0),
        Some((id, d)) => exists|k: int|
            {
                &&& #[trigger] first_nearest(near, pos, candidates, n, k)
                &&& candidates[k].0 == id
                &&& pos.spec_dist_sq(candidates[k].1) == d
            },
    }
}

impl SpatialGrid {
    /// The candidate closest to `pos` among those that the grid holds within
    /// `search_radius` cells of it, with its squared distance. Candidates are
    /// given as id and position; of several at the same distance the first
    /// is taken, and one that the grid does not hold near `pos` is passed
    /// over.
    pub fn find_nearest(
        &self,
        pos: Point,
        search_radius: i32,
        candidates: &Vec<(u64, Point)>,
    ) -> (nearest: Option<(u64, u128)>)
        requires
            self.wf(),
        ensures
            nearest_among(
                neighbors(self.cells(), cell_of(pos, self.cell_size()), search_radius as int),
                pos,
                candidates@,
                candidates@.len() as int,
                nearest,
            ),
    {
        let near = self.find_neighbors(pos, search_radius);
        let mut nearest: Option<(u64, u128)> = None;
        let ghost mut at: int = 0;
        let mut i: usize = 0;
        while i < candidates.len()
            invariant
                i <= candidates.len(),
                nearest matches Some(best) ==> first_nearest(
                    id_set_items(near),
                    pos,
                    candidates@,
                    i as int,
                    at,
                ) && candidates@[at].0 == best.0 && pos.spec_dist_sq(candidates@[at].1) == best.1,
                nearest is None ==> forall|j: int|
                    0 <= j < i ==> !id_set_items(near).contains(#[trigger] candidates@[j].0),
            decreases candidates.len() - i,
        {
            let id: u64 = candidates[i].0;
            if near.has(id) {
                let d: u128 = pos.dist_sq(&candidates[i].1);
                let closer: bool = match nearest {
                    None => true,
                    Some((_, best)) => d < best,
                };
                if closer {
                    nearest = Some((id, d));
                    proof {
                        at = i as int;
                    }
                }
            }
            i = i + 1;
        }
        nearest
    }

    /// The ids in the cells within `radius` cells of the cell of `pos`.
    ///
    /// This takes whole cells, so it holds every agent within `radius` cell
    /// sides of `pos` and some that are farther away.
    pub fn find_neighbors(&self, pos: Point, radius: i32) -> (found: IdSet)
        requires
            self.wf(),
        ensures
            id_set_items(found) == neighbors(
                self.cells(),
                cell_of(pos, self.cell_size()),
                radius as int,
            ),
    {
        let center = to_grid_coords(pos, self.cell_size);
        let mut found = IdSet::empty();
        let r: i64 = radius as i64;
        let mut dx: i64 = -r;
        while dx <= r
            invariant
                r == radius,
                center == cell_of(pos, self.cell_size()),
                -r <= dx,
                dx <= r + 1 || dx == -r,
                forall|id: u64|
                    id_set_items(found).contains(id) <==> exists|cell: (i32, i32)|
                        scanned(cell, center, r as int, dx as int, -r as int) && #[trigger] bucket(
                            grid_cells(self.buckets),
                            cell,
                        ).contains(id),
            decreases r + 1 - dx,
        {
            let mut dy: i64 = -r;
            while dy <= r
                invariant
                    r == radius,
                    center == cell_of(pos, self.cell_size()),
                    -r <= dx <= r,
                    -r <= dy <= r + 1,
                    forall|id: u64|
                        id_set_items(found).contains(id) <==> exists|cell: (i32, i32)|
                            scanned(cell, center, r as int, dx as int, dy as int)
                                && #[trigger] bucket(grid_cells(self.buckets), cell).contains(id),
                decreases r + 1 - dy,
            {
                let cx: i64 = center.0 as i64 + dx;
                let cy: i64 = center.1 as i64 + dy;
                if i32::MIN as i64 <= cx && cx <= i32::MAX as i64 && i32::MIN as i64 <= cy && cy
                    <= i32::MAX as i64 {
                    let here: (i32, i32) = (cx as i32, cy as i32);
                    self.buckets.collect_cell(here, &mut found);
                }
                dy = dy + 1;
            }
            dx = dx + 1;
        }
        found
    }

    /// What the grid holds: each occupied cell with the ids stored under it.
    pub closed spec fn cells(self) -> Map<(i32, i32), Set<u64>> {
        grid_cells(self.buckets)
    }

    /// The side of a cell, in the units of a world position.
    pub closed spec fn cell_size(self) -> int {
        self.cell_size as int
    }

    /// The cells of a grid have a side.
    pub open spec fn wf(self) -> bool {
        self.cell_size() > 0
    }

    /// A grid of cells of the usual size, in which no cell is occupied.
    pub fn new() -> (grid: SpatialGrid)
        ensures
            grid.wf(),
            grid.cell_size() == GRID_CELL_SIZE,
            grid.cells() == empty_cells(),
    {
        SpatialGrid { buckets: Buckets::unoccupied(), cell_size: GRID_CELL_SIZE }
    }

    /// A grid of cells of side `cell_size`, in which no cell is occupied;
    /// nothing where the side is not positive.
    pub fn with_cell_size(cell_size: i32) -> (made: Option<SpatialGrid>)
        ensures
            made is Some <==> cell_size > 0,
            made matches Some(grid) ==> grid.wf() && grid.cell_size() == cell_size && grid.cells()
                == empty_cells(),
    {
        if cell_size > 0 {
            Some(SpatialGrid { buckets: Buckets::unoccupied(), cell_size })
        } else {
            None
        }
    }

    /// A grid of cells of the size that `config` asks for, in which no cell
    /// is occupied.
    pub fn for_config(config: &Config) -> (grid: SpatialGrid)
        requires
            config.valid(),
        ensures
            grid.wf(),
            grid.cell_size() == config.cell_size,
            grid.cells() == empty_cells(),
    {
        SpatialGrid { buckets: Buckets::unoccupied(), cell_size: config.cell_size as i32 }
    }

    /// The side of a cell.
    pub fn side(&self) -> (size: i32)
        ensures
            size == self.cell_size(),
    {
        self.cell_size
    }
}

impl Buckets {
    /// Empty buckets, from `HashMap::default`: no cell is occupied.
    #[verifier::external_body]
    fn unoccupied() -> (buckets: Buckets)
        ensures
            grid_cells(buckets) == empty_cells(),
    {
        Buckets { cells: bevy::utils::HashMap::default() }
    }

    /// `HashMap::clear`: afterwards no cell is occupied.
    #[verifier::external_body]
    fn clear(&mut self)
        ensures
            grid_cells(*final(self)) == empty_cells(),
    {
        self.cells.clear();
    }

    /// `HashMap::entry`, `Entry::or_default` and `HashSet::insert`: `id` joins
    /// the ids under `cell`, which becomes occupied if it was not; every
    /// other cell is left as it was.
    #[verifier::external_body]
    fn insert(&mut self, cell: (i32, i32), id: u64)
        ensures
            grid_cells(*final(self)) == grid_cells(*old(self)).insert(
                cell,
                bucket(grid_cells(*old(self)), cell).insert(id),
            ),
    {
        self.cells.entry(cell).or_default().insert(id);
    }

    /// `HashMap::get` and `HashSet::extend`: every id under `cell` joins
    /// `into`; nothing changes where the cell is not occupied.
    #[verifier::external_body]
    fn collect_cell(&self, cell: (i32, i32), into: &mut IdSet)
        ensures
            id_set_items(*final(into)) == id_set_items(*old(into)).union(
                bucket(grid_cells(*self), cell),
            ),
    {
        into.ids.extend(self.cells.get(&cell).into_iter().flatten());
    }
}

impl IdSet {
    /// An empty set, from `HashSet::default`.
    #[verifier::external_body]
    fn empty() -> (s: IdSet)
        ensures
            id_set_items(s) == Set::<u64>::empty(),
    {
        IdSet { ids: bevy::utils::HashSet::default() }
    }

    /// `HashSet::contains`: whether `id` is one of the ids held.
    #[verifier::external_body]
    fn has(&self, id: u64) -> (b: bool)
        ensures
            b == id_set_items(*self).contains(id),
    {
        self.ids.contains(&id)
    }

    /// `HashSet::iter`: the ids held, each once, in the order in which the
    /// set happens to hand them out.
    #[verifier::external_body]
    fn listed(&self) -> (ids: Vec<u64>)
        ensures
            ids@.no_duplicates(),
            ids@.to_set() == id_set_items(*self),
    {
        self.ids.iter().copied().collect()
    }

    /// Whether `id` is one of the ids held.
    pub fn contains(&self, id: u64) -> (b: bool)
        ensures
            b == id_set_items(*self).contains(id),
    {
        self.has(id)
    }

    /// The ids held, each once, in no particular order.
    pub fn to_vec(&self) -> (ids: Vec<u64>)
        ensures
            ids@.no_duplicates(),
            ids@.to_set() == id_set_items(*self),
    {
        self.listed()
    }
}

} // verus!
