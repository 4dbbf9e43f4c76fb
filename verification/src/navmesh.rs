use crate::store::{
    distinct_keys, lemma_keyed_entry, lemma_keyed_row, next_key, Record, Table,
};
use crate::types::{square, squared_difference, DbVector3};
use vstd::prelude::*;

verus! {

/// The key under which the one configuration is stored.
pub const NAVMESH_CONFIG_ID: u32 = 0;

/// One sample of walkable surface, with the grid cell it is filed under.
#[derive(Clone, Copy, Debug, PartialEq, Eq, Structural)]
pub struct NavMeshGrid {
    pub id: u32,
    pub x: i32,
    pub y: i32,
    pub z: i32,
    /// Grid column of the sample.
    pub grid_x: i32,
    /// Grid row of the sample.
    pub grid_z: i32,
}

impl Record for NavMeshGrid {
    type Key = u32;

    open spec fn key(&self) -> u32 {
        self.id
    }

    fn key_of(&self) -> (key: u32) {
        self.id
    }

    fn has_key(&self, key: &u32) -> (r: bool) {
        self.id == *key
    }
}

/// How world coordinates map to grid cells, and how far from a sample a
/// position may lie.
#[derive(Clone, Copy, Debug, PartialEq, Eq, Structural)]
pub struct NavMeshConfig {
    pub id: u32,
    pub cell_size: i32,
    pub z_tolerance: i32,
    pub bounds_min_x: i32,
    pub bounds_min_z: i32,
}

impl Record for NavMeshConfig {
    type Key = u32;

    open spec fn key(&self) -> u32 {
        self.id
    }

    fn key_of(&self) -> (key: u32) {
        self.id
    }

    fn has_key(&self, key: &u32) -> (r: bool) {
        self.id == *key
    }
}

/// Why a sample could not be stored.
#[derive(Clone, Copy, Debug, PartialEq, Eq, Structural)]
pub enum NavMeshError {
    /// Every identifier is in use.
    IdsExhausted,
}

/// What `navmesh_get_stats` reports.
#[derive(Clone, Copy, Debug, PartialEq, Eq, Structural)]
pub struct NavMeshStats {
    pub point_count: usize,
    /// The configuration, where one is set.
    pub config: Option<NavMeshConfig>,
}

/// The quotient of `a` by `b`, rounded toward negative infinity.
pub open spec fn floor_div(a: int, b: int) -> int
    recommends
        b != 0,
{
    if b > 0 {
        a / b
    } else {
        (-a) / (-b)
    }
}

/// The grid coordinate of a world coordinate: the floor of its offset from
/// the grid's origin, counted in cells, and held to the range of `i32`.
/// With a cell size of zero there is no quotient: the coordinate then lies
/// at the end of the range on the side of the offset, or at 0 on the origin.
pub open spec fn grid_coordinate(coord: i32, bounds_min: i32, cell_size: i32) -> int {
    let offset = coord - bounds_min;
    if cell_size == 0 {
        if offset > 0 {
            i32::MAX as int
        } else if offset < 0 {
            i32::MIN as int
        } else {
            0
        }
    } else {
        let cell = floor_div(offset, cell_size as int);
        if cell > i32::MAX {
            i32::MAX as int
        } else if cell < i32::MIN {
            i32::MIN as int
        } else {
            cell
        }
    }
}

impl NavMeshConfig {
    /// Whether `point` is filed under the cell that this configuration
    /// gives to the point's own coordinates.
    pub open spec fn files(self, point: NavMeshGrid) -> bool {
        &&& point.grid_x == grid_coordinate(point.x, self.bounds_min_x, self.cell_size)
        &&& point.grid_z == grid_coordinate(point.z, self.bounds_min_z, self.cell_size)
    }

    /// Whether the cell of `point` is the cell of `position` or one of the
    /// eight around it.
    pub open spec fn scans(self, point: NavMeshGrid, position: DbVector3) -> bool {
        let column = grid_coordinate(position.x, self.bounds_min_x, self.cell_size);
        let row = grid_coordinate(position.z, self.bounds_min_z, self.cell_size);
        &&& column - 1 <= point.grid_x <= column + 1
        &&& row - 1 <= point.grid_z <= row + 1
    }

    /// Whether `position` lies no farther than one and a half cells from
    /// `point` on the ground plane: `dx^2 + dz^2 <= (1.5 * cell_size)^2`.
    pub open spec fn within_horizontal(self, point: NavMeshGrid, position: DbVector3) -> bool {
        4 * (square(position.x - point.x) + square(position.z - point.z)) <= 9 * square(
            self.cell_size as int,
        )
    }

    /// Whether the height of `position` differs from that of `point` by no
    /// more than the vertical tolerance.
    pub open spec fn within_vertical(self, point: NavMeshGrid, position: DbVector3) -> bool {
        &&& position.y - point.y <= self.z_tolerance
        &&& point.y - position.y <= self.z_tolerance
    }

    /// Whether `point` vouches for `position`: it is found by the scan and
    /// lies within both tolerances.
    pub open spec fn accepts(self, point: NavMeshGrid, position: DbVector3) -> bool {
        &&& self.scans(point, position)
        &&& self.within_horizontal(point, position)
        &&& self.within_vertical(point, position)
    }
}

/// Whether `position` is on walkable surface. Without a configuration every
/// position is; with one, some sample has to vouch for it.
pub open spec fn is_walkable(
    config: Map<u32, NavMeshConfig>,
    grid: Map<u32, NavMeshGrid>,
    position: DbVector3,
) -> bool {
    config.contains_key(NAVMESH_CONFIG_ID) ==> exists|id: u32|
        grid.contains_key(id) && config[NAVMESH_CONFIG_ID].accepts(#[trigger] grid[id], position)
}

/// Computes `grid_coordinate`.
pub fn grid_cell(coord: i32, bounds_min: i32, cell_size: i32) -> (cell: i32)
    ensures
        cell == grid_coordinate(coord, bounds_min, cell_size),
{
    let offset: i64 = coord as i64 - bounds_min as i64;
    if cell_size == 0 {
        if offset > 0 {
            i32::MAX
        } else if offset < 0 {
            i32::MIN
        } else {
            0
        }
    } else {
        let quotient: Option<i64> = if cell_size > 0 {
            offset.checked_div_euclid(cell_size as i64)
        } else {
            (-offset).checked_div_euclid(-(cell_size as i64))
        };
        assert(quotient is Some && quotient.unwrap() == floor_div(offset as int, cell_size as int))
            by {
            let a: int = if cell_size > 0 { offset as int } else { -(offset as int) };
            let b: int = if cell_size > 0 { cell_size as int } else { -(cell_size as int) };
            assert(-0x1_0000_0000 <= a / b <= 0x1_0000_0000) by (nonlinear_arith)
                requires
                    -0x1_0000_0000 <= a <= 0x1_0000_0000,
                    b >= 1,
            ;
        }
        let cell: i64 = quotient.unwrap();
        if cell > i32::MAX as i64 {
            i32::MAX
        } else if cell < i32::MIN as i64 {
            i32::MIN
        } else {
            cell as i32
        }
    }
}

impl NavMeshConfig {
    /// Computes `accepts`.
    pub fn vouches(&self, point: &NavMeshGrid, position: &DbVector3) -> (r: bool)
        ensures
            r == self.accepts(*point, *position),
    {
        let column: i64 = grid_cell(position.x, self.bounds_min_x, self.cell_size) as i64;
        let row: i64 = grid_cell(position.z, self.bounds_min_z, self.cell_size) as i64;
        let scanned: bool = column - 1 <= point.grid_x as i64 && point.grid_x as i64 <= column + 1
            && row - 1 <= point.grid_z as i64 && point.grid_z as i64 <= row + 1;
        if !scanned {
            return false;
        }
        let horizontal: u128 = squared_difference(position.x, point.x) + squared_difference(
            position.z,
            point.z,
        );
        let reach: u128 = squared_difference(self.cell_size, 0);
        let rise: i64 = position.y as i64 - point.y as i64;
        4 * horizontal <= 9 * reach && rise <= self.z_tolerance as i64 && -rise
            <= self.z_tolerance as i64
    }
}

/// Stores one sample under a new identifier, which it returns.
pub fn navmesh_upload_point(
    grid: &mut Table<NavMeshGrid>,
    x: i32,
    y: i32,
    z: i32,
    grid_x: i32,
    grid_z: i32,
) -> (r: Result<u32, NavMeshError>)
    ensures
        r is Err <==> old(grid)@.contains_key(u32::MAX),
        r is Err ==> final(grid)@ == old(grid)@,
        r matches Ok(id) ==> id == next_key(old(grid)@) && final(grid)@ == old(grid)@.insert(
            id,
            NavMeshGrid { id, x, y, z, grid_x, grid_z },
        ),
{
    match grid.fresh_key() {
        None => Err(NavMeshError::IdsExhausted),
        Some(id) => {
            let stored = grid.insert(NavMeshGrid { id, x, y, z, grid_x, grid_z });
            Ok(id)
        },
    }
}

/// Sets the configuration, in place of the one before it if there was one.
pub fn navmesh_set_config(
    config: &mut Table<NavMeshConfig>,
    cell_size: i32,
    z_tolerance: i32,
    bounds_min_x: i32,
    bounds_min_z: i32,
)
    ensures
        final(config)@ == old(config)@.insert(
            NAVMESH_CONFIG_ID,
            NavMeshConfig {
                id: NAVMESH_CONFIG_ID,
                cell_size,
                z_tolerance,
                bounds_min_x,
                bounds_min_z,
            },
        ),
{
    let row = NavMeshConfig {
        id: NAVMESH_CONFIG_ID,
        cell_size,
        z_tolerance,
        bounds_min_x,
        bounds_min_z,
    };
    config.upsert(row);
}

/// Takes every sample out of the grid.
pub fn navmesh_clear_grid(grid: &mut Table<NavMeshGrid>)
    ensures
        final(grid)@ == Map::<u32, NavMeshGrid>::empty(),
{
    grid.clear();
}

/// Whether the position is on walkable surface.
pub fn is_position_valid(
    config: &Table<NavMeshConfig>,
    grid: &Table<NavMeshGrid>,
    x: i32,
    y: i32,
    z: i32,
) -> (valid: bool)
    ensures
        valid == is_walkable(config@, grid@, DbVector3 { x, y, z }),
{
    let position = DbVector3 { x, y, z };
    let active = match config.find(&NAVMESH_CONFIG_ID) {
        Some(found) => *found,
        None => {
            return true;
        },
    };
    let points = grid.rows();
    let mut i: usize = 0;
    while i < points.len()
        invariant
            i <= points.len(),
            points@ == grid.seq(),
            distinct_keys(points@),
            position == (DbVector3 { x, y, z }),
            config@.contains_key(NAVMESH_CONFIG_ID),
            active == config@[NAVMESH_CONFIG_ID],
            forall|j: int| 0 <= j < i ==> !active.accepts(#[trigger] points@[j], position),
        decreases points.len() - i,
    {
        if active.vouches(&points[i], &position) {
            proof {
                lemma_keyed_row(grid.seq(), i as int);
                let id = points@[i as int].id;
                assert(grid@.contains_key(id) && active.accepts(grid@[id], position));
            }
            return true;
        }
        i += 1;
    }
    proof {
        assert forall|id: u32| grid@.contains_key(id) implies !active.accepts(
            #[trigger] grid@[id],
            position,
        ) by {
            lemma_keyed_entry(grid.seq(), id);
        }
    }
    false
}

/// The number of samples, and the configuration where one is set.
pub fn navmesh_get_stats(config: &Table<NavMeshConfig>, grid: &Table<NavMeshGrid>) -> (stats:
    NavMeshStats)
    ensures
        stats.point_count == grid@.dom().len(),
        stats.config == config@.get(NAVMESH_CONFIG_ID),
{
    let active = match config.find(&NAVMESH_CONFIG_ID) {
        Some(found) => Some(*found),
        None => None,
    };
    NavMeshStats { point_count: grid.len(), config: active }
}

/// The position of a sample is walkable, where the configuration files the
/// sample under the cell of its own coordinates and the vertical tolerance
/// is not negative.
pub proof fn sample_position_is_walkable(
    config: Map<u32, NavMeshConfig>,
    grid: Map<u32, NavMeshGrid>,
    id: u32,
)
    requires
        grid.contains_key(id),
        config.contains_key(NAVMESH_CONFIG_ID) ==> {
            &&& config[NAVMESH_CONFIG_ID].files(grid[id])
            &&& config[NAVMESH_CONFIG_ID].z_tolerance >= 0
        },
    ensures
        is_walkable(config, grid, DbVector3 { x: grid[id].x, y: grid[id].y, z: grid[id].z }),
{
    if config.contains_key(NAVMESH_CONFIG_ID) {
        let position = DbVector3 { x: grid[id].x, y: grid[id].y, z: grid[id].z };
        assert(square(0) == 0);
        assert(square(config[NAVMESH_CONFIG_ID].cell_size as int) >= 0) by (nonlinear_arith);
        assert(config[NAVMESH_CONFIG_ID].accepts(grid[id], position));
    }
}

/// The horizontal reach of a sample is inclusive: a position that the scan
/// finds the sample for, and that lies within its vertical tolerance, is
/// walkable if it is no farther than one and a half cells from the sample
/// on the ground plane, and where no other sample vouches for it, only
/// then.
pub proof fn horizontal_reach_is_inclusive(
    config: Map<u32, NavMeshConfig>,
    grid: Map<u32, NavMeshGrid>,
    id: u32,
    position: DbVector3,
)
    requires
        config.contains_key(NAVMESH_CONFIG_ID),
        grid.contains_key(id),
        config[NAVMESH_CONFIG_ID].scans(grid[id], position),
        config[NAVMESH_CONFIG_ID].within_vertical(grid[id], position),
        forall|other: u32|
            grid.contains_key(other) && other != id ==> !config[NAVMESH_CONFIG_ID].accepts(
                #[trigger] grid[other],
                position,
            ),
    ensures
        is_walkable(config, grid, position) <==> 4 * (square(position.x - grid[id].x) + square(
            position.z - grid[id].z,
        )) <= 9 * square(config[NAVMESH_CONFIG_ID].cell_size as int),
{
    if config[NAVMESH_CONFIG_ID].within_horizontal(grid[id], position) {
        assert(config[NAVMESH_CONFIG_ID].accepts(grid[id], position));
    }
}

/// The vertical tolerance is inclusive: a position that the scan finds the
/// sample for, and that lies within its horizontal reach, is walkable if
/// its height differs from the sample's by no more than the tolerance, and
/// where no other sample vouches for it, only then.
pub proof fn vertical_tolerance_is_inclusive(
    config: Map<u32, NavMeshConfig>,
    grid: Map<u32, NavMeshGrid>,
    id: u32,
    position: DbVector3,
)
    requires
        config.contains_key(NAVMESH_CONFIG_ID),
        grid.contains_key(id),
        config[NAVMESH_CONFIG_ID].scans(grid[id], position),
        config[NAVMESH_CONFIG_ID].within_horizontal(grid[id], position),
        forall|other: u32|
            grid.contains_key(other) && other != id ==> !config[NAVMESH_CONFIG_ID].accepts(
                #[trigger] grid[other],
                position,
            ),
    ensures
        is_walkable(config, grid, position) <==> {
            &&& position.y - grid[id].y <= config[NAVMESH_CONFIG_ID].z_tolerance
            &&& grid[id].y - position.y <= config[NAVMESH_CONFIG_ID].z_tolerance
        },
{
    if config[NAVMESH_CONFIG_ID].within_vertical(grid[id], position) {
        assert(config[NAVMESH_CONFIG_ID].accepts(grid[id], position));
    }
}

/// Without a configuration every position is walkable.
pub proof fn unconfigured_mesh_accepts_all(
    config: Map<u32, NavMeshConfig>,
    grid: Map<u32, NavMeshGrid>,
    position: DbVector3,
)
    requires
        !config.contains_key(NAVMESH_CONFIG_ID),
    ensures
        is_walkable(config, grid, position),
{
}

/// The scan is local: whether a position is walkable depends only on the
/// samples filed under its cell and the eight around it. A part of the
/// grid that holds all of those gives the same answer as the whole grid.
pub proof fn walkability_is_local(
    config: Map<u32, NavMeshConfig>,
    grid: Map<u32, NavMeshGrid>,
    part: Map<u32, NavMeshGrid>,
    position: DbVector3,
)
    requires
        forall|id: u32| part.contains_key(id) ==> grid.contains_key(id) && part[id] == grid[id],
        forall|id: u32|
            config.contains_key(NAVMESH_CONFIG_ID) && grid.contains_key(id)
                && config[NAVMESH_CONFIG_ID].scans(#[trigger] grid[id], position)
                ==> part.contains_key(id),
    ensures
        is_walkable(config, part, position) == is_walkable(config, grid, position),
{
    if config.contains_key(NAVMESH_CONFIG_ID) {
        let active = config[NAVMESH_CONFIG_ID];
        if is_walkable(config, grid, position) {
            let id = choose|id: u32|
                grid.contains_key(id) && active.accepts(#[trigger] grid[id], position);
            assert(part.contains_key(id) && active.accepts(part[id], position));
        }
        if is_walkable(config, part, position) {
            let id = choose|id: u32|
                part.contains_key(id) && active.accepts(#[trigger] part[id], position);
            assert(grid.contains_key(id) && active.accepts(grid[id], position));
        }
    }
}

} // verus!
