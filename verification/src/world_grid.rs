//! Discretized terrain store and coordinate-transform authority.
//!
//! The grid owns a flat row-major sequence of [`Tile`]s of `width * height`
//! cells, each cell `scale` world units on a side, centered on the world
//! origin. World positions are held in *half* world units ([`WorldPos`]),
//! so that the half-cell centering offset and the half-scale parity offset
//! of the coordinate transforms are exact integers.

use vstd::arithmetic::div_mod::{
    lemma_div_multiples_vanish, lemma_div_multiples_vanish_fancy, lemma_div_nonincreasing,
    lemma_fundamental_div_mod, lemma_fundamental_div_mod_converse,
    lemma_mod_division_less_than_divisor,
};
use vstd::prelude::*;

verus! {

/// Terrain code of a cell nothing has been built on.
pub const TERRAIN_EMPTY: u8 = 0;

/// Terrain code of a cell a confirmed building occupies.
pub const TERRAIN_OCCUPIED: u8 = 1;

/// Largest grid-cell coordinate magnitude the coordinate transforms accept;
/// keeps the fixed-point arithmetic inside `i64`.
pub const MAX_CELL_COORD: i64 = 0x1_0000_0000;

/// Largest world coordinate magnitude (in half units) the transforms accept.
pub const MAX_WORLD_COORD: i64 = 0x4_0000_0000_0000;

/// A single grid cell; it has no identity beyond its coordinate.
#[derive(Clone, Copy, Debug, PartialEq, Eq, Structural)]
pub struct Tile {
    pub terrain_type: u8,
}

impl Default for Tile {
    /// A tile nothing has been built on.
    fn default() -> (t: Tile)
        ensures
            t.terrain_type == TERRAIN_EMPTY,
    {
        Tile { terrain_type: TERRAIN_EMPTY }
    }
}

/// A grid-cell coordinate. It may lie outside the grid (for example the
/// cursor cell while the pointer is off the map); every per-cell lookup is
/// bounds checked.
#[derive(Clone, Copy, Debug, PartialEq, Eq, Structural)]
pub struct GridPos {
    pub x: i64,
    pub y: i64,
}

/// A world-space position in half world units: `hx` is twice the world
/// x coordinate. Doubling makes the even-footprint half-cell offset and the
/// half-scale cell centering exact in integer arithmetic.
#[derive(Clone, Copy, Debug, PartialEq, Eq, Structural)]
pub struct WorldPos {
    pub hx: i64,
    pub hy: i64,
}

/// A rectangular footprint size, in cells per axis.
#[derive(Clone, Copy, Debug, PartialEq, Eq, Structural)]
pub struct Footprint {
    pub x: u32,
    pub y: u32,
}

/// The mathematical model of a [`WorldGrid`].
pub ghost struct GridModel {
    pub width: int,
    pub height: int,
    pub scale: int,
    pub tiles: Seq<Tile>,
}

impl GridModel {
    /// Well-formedness: strictly positive dimensions and scale, and a tile
    /// for every cell. `width * height` is kept within `u32` so that cell
    /// indices can be computed in machine arithmetic.
    pub open spec fn wf(self) -> bool {
        &&& 1 <= self.width
        &&& 1 <= self.height
        &&& 1 <= self.scale
        &&& self.width * self.height <= u32::MAX
        &&& self.tiles.len() == self.width * self.height
    }

    /// Whether `(x, y)` names a cell of the grid.
    pub open spec fn in_bounds(self, x: int, y: int) -> bool {
        0 <= x < self.width && 0 <= y < self.height
    }

    /// Row-major index of cell `(x, y)`.
    pub open spec fn cell_idx(self, x: int, y: int) -> int {
        y * self.width + x
    }

    /// Terrain code of cell `(x, y)`.
    pub open spec fn terrain_at(self, x: int, y: int) -> u8 {
        self.tiles[self.cell_idx(x, y)].terrain_type
    }
}

/// The row-major cell index of an in-bounds cell is itself in bounds.
pub proof fn lemma_cell_idx_bounds(m: GridModel, x: int, y: int)
    requires
        m.wf(),
        m.in_bounds(x, y),
    ensures
        0 <= m.cell_idx(x, y) < m.width * m.height,
{
    assert(0 <= y * m.width + x < m.width * m.height) by (nonlinear_arith)
        requires
            0 <= x < m.width,
            0 <= y < m.height,
    {}
}

/// Distinct in-bounds cells have distinct row-major indices.
pub proof fn lemma_cell_idx_injective(m: GridModel, x1: int, y1: int, x2: int, y2: int)
    requires
        m.wf(),
        m.in_bounds(x1, y1),
        m.in_bounds(x2, y2),
        m.cell_idx(x1, y1) == m.cell_idx(x2, y2),
    ensures
        x1 == x2 && y1 == y2,
{
    assert(x1 == x2 && y1 == y2) by (nonlinear_arith)
        requires
            0 <= x1 < m.width,
            0 <= y1 < m.height,
            0 <= x2 < m.width,
            0 <= y2 < m.height,
            y1 * m.width + x1 == y2 * m.width + x2,
    {}
}

/// Lowest cell coordinate covered along one axis by a rectangle of `d >= 1`
/// cells centered on cell `c`. An odd dimension spans `(d - 1) / 2` cells on
/// each side of `c`; an even one takes its extra cell on the negative side.
pub open spec fn rect_lo(c: int, d: int) -> int {
    c - (d - 1) / 2
}

/// Whether cell `(x, y)` lies in the rectangle of `size` cells centered on
/// `origin`. A rectangle with a zero dimension covers nothing.
pub open spec fn covers(origin: GridPos, size: Footprint, x: int, y: int) -> bool {
    &&& 1 <= size.x && 1 <= size.y
    &&& rect_lo(origin.x as int, size.x as int) <= x < rect_lo(origin.x as int, size.x as int)
        + size.x
    &&& rect_lo(origin.y as int, size.y as int) <= y < rect_lo(origin.y as int, size.y as int)
        + size.y
}

/// How `modify_rectangle` changes a grid: the dimensions and the tile count
/// are kept; covered in-bounds cells become occupied; every other cell keeps
/// its terrain. Covered cells outside the grid are silently clipped.
pub open spec fn modify_rect_rel(
    pre: GridModel,
    post: GridModel,
    origin: GridPos,
    size: Footprint,
) -> bool {
    &&& post.width == pre.width
    &&& post.height == pre.height
    &&& post.scale == pre.scale
    &&& post.tiles.len() == pre.tiles.len()
    &&& forall|x: int, y: int|
        pre.in_bounds(x, y) ==> #[trigger] post.terrain_at(x, y) == (if covers(
            origin,
            size,
            x,
            y,
        ) {
            TERRAIN_OCCUPIED
        } else {
            pre.terrain_at(x, y)
        })
}

/// The half-cell parity offset, in half cells: an even footprint dimension
/// shifts the footprint's center by half a cell along that axis so that the
/// placed rectangle aligns to cell boundaries; an odd one does not.
pub open spec fn even_offset(dim: int) -> int {
    if dim % 2 == 0 {
        1
    } else {
        0
    }
}

/// World coordinate (in half units) of a footprint of `dim` cells centered
/// on cell `c`, along an axis of `extent` cells at `scale` units per cell:
/// `(c + offset/2 + 1/2 - extent/2) * scale`, doubled.
pub open spec fn world_axis_of_grid(c: int, dim: int, extent: int, scale: int) -> int {
    scale * (2 * c + even_offset(dim) + 1 - extent)
}

/// Grid coordinate of the cell containing the world coordinate `w` (in half
/// units), along an axis of `extent` cells at `scale` units per cell:
/// `floor((w/2 + extent * scale / 2) / scale)`.
pub open spec fn grid_axis_of_world(w: int, extent: int, scale: int) -> int {
    (w + extent * scale) / (2 * scale)
}

/// Floor division of `n` by a positive divisor `d`, matching the Euclidean
/// `/` of specifications.
fn floor_div(n: i64, d: u64) -> (q: i64)
    requires
        1 <= d <= 0x2_0000_0000_0000,
        -0x4000_0000_0000_0000 <= n <= 0x4000_0000_0000_0000,
    ensures
        q == n as int / d as int,
{
    if n >= 0 {
        let un = n as u64;
        let uq = un / d;
        proof {
            lemma_div_nonincreasing(un as int, d as int);
        }
        uq as i64
    } else {
        let m = (-n) as u64;
        let uq = m / d;
        let ur = m % d;
        proof {
            lemma_fundamental_div_mod(m as int, d as int);
            lemma_div_nonincreasing(m as int, d as int);
        }
        if ur == 0 {
            proof {
                assert(n as int == (-(uq as int)) * (d as int) + 0) by (nonlinear_arith)
                    requires
                        m as int == (d as int) * (uq as int) + (ur as int),
                        n as int == -(m as int),
                        ur == 0,
                {}
                lemma_fundamental_div_mod_converse(n as int, d as int, -(uq as int), 0);
            }
            -(uq as i64)
        } else {
            proof {
                assert(n as int == (-(uq as int) - 1) * (d as int) + ((d - ur) as int))
                    by (nonlinear_arith)
                    requires
                        m as int == (d as int) * (uq as int) + (ur as int),
                        n as int == -(m as int),
                {}
                lemma_fundamental_div_mod_converse(
                    n as int,
                    d as int,
                    -(uq as int) - 1,
                    (d - ur) as int,
                );
            }
            -(uq as i64) - 1
        }
    }
}

/// The discretized terrain store. Created once with fixed dimensions and
/// mutated in place by placement confirmation; never resized.
#[derive(Clone, Debug)]
pub struct WorldGrid {
    tiles: Vec<Tile>,
    scale: u16,
    width: u32,
    height: u32,
}

impl View for WorldGrid {
    type V = GridModel;

    closed spec fn view(&self) -> GridModel {
        GridModel {
            width: self.width as int,
            height: self.height as int,
            scale: self.scale as int,
            tiles: self.tiles@,
        }
    }
}

impl WorldGrid {
    /// Creates a grid of `width * height` empty cells, each `scale` world
    /// units on a side. A grid with a zero dimension or scale is a fatal
    /// configuration error, so callers must rule it out up front.
    pub fn new(height: u32, width: u32, scale: u16) -> (grid: WorldGrid)
        requires
            1 <= width,
            1 <= height,
            1 <= scale,
            width * height <= u32::MAX,
        ensures
            grid@.wf(),
            grid@.width == width,
            grid@.height == height,
            grid@.scale == scale,
            forall|x: int, y: int|
                grid@.in_bounds(x, y) ==> #[trigger] grid@.terrain_at(x, y) == TERRAIN_EMPTY,
    {
        proof {
            assert(height * width <= u32::MAX && height * width == width * height)
                by (nonlinear_arith)
                requires
                    width * height <= u32::MAX,
            {}
        }
        let n = (height * width) as usize;
        let mut tiles: Vec<Tile> = Vec::new();
        while tiles.len() < n
            invariant
                tiles.len() <= n,
                forall|i: int|
                    0 <= i < tiles.len() ==> #[trigger] tiles@[i].terrain_type == TERRAIN_EMPTY,
            decreases n - tiles.len(),
        {
            tiles.push(Tile::default());
        }
        let grid = WorldGrid { tiles, scale, width, height };
        proof {
            assert forall|x: int, y: int| grid@.in_bounds(x, y)
                implies #[trigger] grid@.terrain_at(x, y) == TERRAIN_EMPTY by {
                lemma_cell_idx_bounds(grid@, x, y);
            }
        }
        grid
    }

    /// Cell count along the x axis.
    pub fn width(&self) -> (w: u32)
        ensures
            w == self@.width,
    {
        self.width
    }

    /// Cell count along the y axis.
    pub fn height(&self) -> (h: u32)
        ensures
            h == self@.height,
    {
        self.height
    }

    /// World units per cell edge.
    pub fn scale(&self) -> (s: u32)
        ensures
            s == self@.scale,
    {
        self.scale as u32
    }

    /// Row-major index of the cell at `coords`, or `None` when `coords`
    /// falls outside the grid.
    pub fn cell_index(&self, coords: GridPos) -> (idx: Option<usize>)
        requires
            self@.wf(),
        ensures
            match idx {
                Some(i) => self@.in_bounds(coords.x as int, coords.y as int)
                    && i == self@.cell_idx(coords.x as int, coords.y as int),
                None => !self@.in_bounds(coords.x as int, coords.y as int),
            },
    {
        if coords.x < 0 || coords.y < 0 || coords.x >= self.width as i64
            || coords.y >= self.height as i64 {
            return None;
        }
        proof {
            lemma_cell_idx_bounds(self@, coords.x as int, coords.y as int);
        }
        Some((coords.y as u32 * self.width + coords.x as u32) as usize)
    }

    /// The tile at `coords`, or `None` when there is no such cell.
    pub fn tile(&self, coords: GridPos) -> (t: Option<Tile>)
        requires
            self@.wf(),
        ensures
            match t {
                Some(tile) => self@.in_bounds(coords.x as int, coords.y as int)
                    && tile.terrain_type == self@.terrain_at(coords.x as int, coords.y as int),
                None => !self@.in_bounds(coords.x as int, coords.y as int),
            },
    {
        match self.cell_index(coords) {
            Some(i) => {
                proof {
                    lemma_cell_idx_bounds(self@, coords.x as int, coords.y as int);
                }
                Some(self.tiles[i])
            },
            None => None,
        }
    }

    /// Maps a world position to the (continuous, already floored) grid
    /// coordinate of the cell containing it, by centering on the grid's
    /// world-space bounding box and dividing by the cell scale. Defined for
    /// every position, on or off the grid.
    pub fn world_to_grid(&self, coords: WorldPos) -> (cell: GridPos)
        requires
            self@.wf(),
            -MAX_WORLD_COORD <= coords.hx <= MAX_WORLD_COORD,
            -MAX_WORLD_COORD <= coords.hy <= MAX_WORLD_COORD,
        ensures
            cell.x == grid_axis_of_world(coords.hx as int, self@.width, self@.scale),
            cell.y == grid_axis_of_world(coords.hy as int, self@.height, self@.scale),
    {
        proof {
            lemma_half_extent_bound(self@.width, self@.scale);
            lemma_half_extent_bound(self@.height, self@.scale);
        }
        let half_w: i64 = (self.width as i64) * (self.scale as i64);
        let half_h: i64 = (self.height as i64) * (self.scale as i64);
        let d: u64 = 2 * (self.scale as u64);
        let gx = floor_div(coords.hx + half_w, d);
        let gy = floor_div(coords.hy + half_h, d);
        GridPos { x: gx, y: gy }
    }

    /// Maps a grid cell to the world position on which a footprint of
    /// `building_size` cells centered on that cell must stand. An even
    /// dimension is offset by half a cell along its axis, so that placed
    /// rectangles align to cell boundaries regardless of parity.
    pub fn grid_to_world(&self, coords: GridPos, building_size: Footprint) -> (pos: WorldPos)
        requires
            self@.wf(),
            -MAX_CELL_COORD <= coords.x <= MAX_CELL_COORD,
            -MAX_CELL_COORD <= coords.y <= MAX_CELL_COORD,
        ensures
            pos.hx == world_axis_of_grid(
                coords.x as int,
                building_size.x as int,
                self@.width,
                self@.scale,
            ),
            pos.hy == world_axis_of_grid(
                coords.y as int,
                building_size.y as int,
                self@.height,
                self@.scale,
            ),
            -MAX_WORLD_COORD <= pos.hx <= MAX_WORLD_COORD,
            -MAX_WORLD_COORD <= pos.hy <= MAX_WORLD_COORD,
    {
        let off_x: i64 = if building_size.x % 2 == 0 {
            1
        } else {
            0
        };
        let off_y: i64 = if building_size.y % 2 == 0 {
            1
        } else {
            0
        };
        proof {
            lemma_world_axis_bound(coords.x as int, building_size.x as int, self@.width, self@.scale);
            lemma_world_axis_bound(coords.y as int, building_size.y as int, self@.height, self@.scale);
        }
        let hx: i64 = (self.scale as i64) * (2 * coords.x + off_x + 1 - self.width as i64);
        let hy: i64 = (self.scale as i64) * (2 * coords.y + off_y + 1 - self.height as i64);
        WorldPos { hx, hy }
    }

    /// Marks every cell of the rectangle of `size` cells centered on
    /// `origin` as occupied. Cells that fall outside the grid are silently
    /// skipped; a zero dimension makes the call a no-op.
    #[verifier::loop_isolation(false)]
    pub fn modify_rectangle(&mut self, origin: GridPos, size: Footprint)
        requires
            old(self)@.wf(),
            -MAX_CELL_COORD <= origin.x <= MAX_CELL_COORD,
            -MAX_CELL_COORD <= origin.y <= MAX_CELL_COORD,
        ensures
            final(self)@.wf(),
            modify_rect_rel(old(self)@, final(self)@, origin, size),
    {
        let ghost pre = self@;
        let w = size.x;
        let h = size.y;
        if w == 0 || h == 0 {
            return;
        }
        let start_x: i64 = origin.x - (((w - 1) / 2) as i64);
        let start_y: i64 = origin.y - (((h - 1) / 2) as i64);
        let end_x: i64 = start_x + w as i64;
        let end_y: i64 = start_y + h as i64;
        let lo_x: i64 = if start_x < 0 {
            0
        } else {
            start_x
        };
        let lo_y: i64 = if start_y < 0 {
            0
        } else {
            start_y
        };
        let hi_x: i64 = if end_x > self.width as i64 {
            self.width as i64
        } else {
            end_x
        };
        let hi_y: i64 = if end_y > self.height as i64 {
            self.height as i64
        } else {
            end_y
        };
        if lo_x >= hi_x || lo_y >= hi_y {
            return;
        }
        let lo_xu: usize = lo_x as usize;
        let hi_xu: usize = hi_x as usize;
        let hi_yu: usize = hi_y as usize;
        let width_us: usize = self.width as usize;
        let mut y: usize = lo_y as usize;
        while y < hi_yu
            invariant
                lo_y <= y <= hi_yu,
                self@.width == pre.width,
                self@.height == pre.height,
                self@.scale == pre.scale,
                self@.tiles.len() == pre.tiles.len(),
                forall|gx: int, gy: int|
                    pre.in_bounds(gx, gy) ==> #[trigger] self@.terrain_at(gx, gy) == (if covers(
                        origin,
                        size,
                        gx,
                        gy,
                    ) && gy < y {
                        TERRAIN_OCCUPIED
                    } else {
                        pre.terrain_at(gx, gy)
                    }),
            decreases hi_yu - y,
        {
            let mut x: usize = lo_xu;
            while x < hi_xu
                invariant
                    lo_xu <= x <= hi_xu,
                    y < hi_yu,
                    self@.width == pre.width,
                    self@.height == pre.height,
                    self@.scale == pre.scale,
                    self@.tiles.len() == pre.tiles.len(),
                    forall|gx: int, gy: int|
                        pre.in_bounds(gx, gy) ==> #[trigger] self@.terrain_at(gx, gy) == (
                        if covers(origin, size, gx, gy) && (gy < y || (gy == y && gx < x)) {
                            TERRAIN_OCCUPIED
                        } else {
                            pre.terrain_at(gx, gy)
                        }),
                decreases hi_xu - x,
            {
                proof {
                    lemma_cell_idx_bounds(self@, x as int, y as int);
                }
                let ghost m0 = self@;
                let idx: usize = y * width_us + x;
                self.tiles[idx] = Tile { terrain_type: TERRAIN_OCCUPIED };
                proof {
                    assert(covers(origin, size, x as int, y as int));
                    assert forall|gx: int, gy: int| pre.in_bounds(gx, gy)
                        implies #[trigger] self@.terrain_at(gx, gy) == (if covers(
                        origin,
                        size,
                        gx,
                        gy,
                    ) && (gy < y || (gy == y && gx < x + 1)) {
                        TERRAIN_OCCUPIED
                    } else {
                        pre.terrain_at(gx, gy)
                    }) by {
                        lemma_cell_idx_bounds(m0, gx, gy);
                        assert(m0.terrain_at(gx, gy) == (if covers(origin, size, gx, gy) && (gy < y
                            || (gy == y && gx < x)) {
                            TERRAIN_OCCUPIED
                        } else {
                            pre.terrain_at(gx, gy)
                        }));
                        if !(gx == x && gy == y) && m0.cell_idx(gx, gy) == idx {
                            lemma_cell_idx_injective(m0, gx, gy, x as int, y as int);
                        }
                    }
                }
                x = x + 1;
            }
            proof {
                assert forall|gx: int, gy: int| pre.in_bounds(gx, gy)
                    implies #[trigger] self@.terrain_at(gx, gy) == (if covers(origin, size, gx, gy)
                    && gy < y + 1 {
                    TERRAIN_OCCUPIED
                } else {
                    pre.terrain_at(gx, gy)
                }) by {
                    assert(self@.terrain_at(gx, gy) == (if covers(origin, size, gx, gy) && (gy < y
                        || (gy == y && gx < hi_xu)) {
                        TERRAIN_OCCUPIED
                    } else {
                        pre.terrain_at(gx, gy)
                    }));
                }
            }
            y = y + 1;
        }
        proof {
            assert forall|gx: int, gy: int| pre.in_bounds(gx, gy)
                implies #[trigger] self@.terrain_at(gx, gy) == (if covers(origin, size, gx, gy) {
                TERRAIN_OCCUPIED
            } else {
                pre.terrain_at(gx, gy)
            }) by {
                assert(self@.terrain_at(gx, gy) == (if covers(origin, size, gx, gy) && gy < hi_yu {
                    TERRAIN_OCCUPIED
                } else {
                    pre.terrain_at(gx, gy)
                }));
            }
        }
    }
}

/// `extent * scale` stays within the transforms' world-coordinate bound.
proof fn lemma_half_extent_bound(extent: int, scale: int)
    requires
        1 <= extent <= u32::MAX,
        1 <= scale <= u16::MAX,
    ensures
        0 < extent * scale < 0x1_0000_0000_0000,
{
    assert(0 < extent * scale < 0x1_0000_0000_0000) by (nonlinear_arith)
        requires
            1 <= extent <= u32::MAX,
            1 <= scale <= u16::MAX,
    {}
}

/// Round-trip law for one axis: mapping a cell to world space and back
/// lands on the cell itself for an odd footprint dimension and one cell up
/// for an even one.
proof fn lemma_axis_round_trip(c: int, dim: int, extent: int, scale: int)
    requires
        1 <= scale,
    ensures
        grid_axis_of_world(world_axis_of_grid(c, dim, extent, scale), extent, scale) == c
            + even_offset(dim),
{
    let e = even_offset(dim);
    let w = world_axis_of_grid(c, dim, extent, scale);
    let n = w + extent * scale;
    assert(n == (2 * scale) * c + scale * (e + 1)) by (nonlinear_arith)
        requires
            w == scale * (2 * c + e + 1 - extent),
            n == w + extent * scale,
    {}
    if e == 0 {
        lemma_div_multiples_vanish_fancy(c, scale, 2 * scale);
        assert(scale * (e + 1) == scale) by (nonlinear_arith)
            requires
                e == 0,
        {}
    } else {
        assert(n == (2 * scale) * (c + 1)) by (nonlinear_arith)
            requires
                n == (2 * scale) * c + scale * (e + 1),
                e == 1,
        {}
        lemma_div_multiples_vanish(c + 1, 2 * scale);
    }
}

/// For every in-bounds grid cell, `world_to_grid` applied to
/// `grid_to_world` of that cell recovers the cell to within one cell on
/// each axis, whatever the footprint size: exactly, for an odd dimension,
/// and one cell up, for an even one.
pub proof fn lemma_world_round_trip(m: GridModel, cell: GridPos, size: Footprint)
    requires
        m.wf(),
        m.in_bounds(cell.x as int, cell.y as int),
    ensures
        ({
            let gx = grid_axis_of_world(
                world_axis_of_grid(cell.x as int, size.x as int, m.width, m.scale),
                m.width,
                m.scale,
            );
            let gy = grid_axis_of_world(
                world_axis_of_grid(cell.y as int, size.y as int, m.height, m.scale),
                m.height,
                m.scale,
            );
            &&& cell.x <= gx <= cell.x + 1
            &&& cell.y <= gy <= cell.y + 1
            &&& gx == cell.x + even_offset(size.x as int)
            &&& gy == cell.y + even_offset(size.y as int)
        }),
{
    lemma_axis_round_trip(cell.x as int, size.x as int, m.width, m.scale);
    lemma_axis_round_trip(cell.y as int, size.y as int, m.height, m.scale);
}

/// Clipping law: `modify_rectangle` never touches a tile whose row-major
/// index falls outside `[0, width * height)` (there is no such tile), and
/// every tile it changes is an in-bounds cell covered by the rectangle.
pub proof fn lemma_modify_rectangle_clipped(
    pre: GridModel,
    post: GridModel,
    origin: GridPos,
    size: Footprint,
)
    requires
        pre.wf(),
        modify_rect_rel(pre, post, origin, size),
    ensures
        post.tiles.len() == pre.width * pre.height,
        forall|i: int|
            0 <= i < post.tiles.len() && #[trigger] post.tiles[i] != pre.tiles[i] ==> 0 <= i
                < pre.width * pre.height && pre.in_bounds(i % pre.width, i / pre.width) && covers(
                origin,
                size,
                i % pre.width,
                i / pre.width,
            ),
{
    assert forall|i: int| 0 <= i < post.tiles.len() && #[trigger] post.tiles[i] != pre.tiles[i]
        implies 0 <= i < pre.width * pre.height && pre.in_bounds(i % pre.width, i / pre.width)
        && covers(origin, size, i % pre.width, i / pre.width) by {
        let x = i % pre.width;
        let y = i / pre.width;
        lemma_fundamental_div_mod(i, pre.width);
        lemma_mod_division_less_than_divisor(i, pre.width);
        assert(0 <= y < pre.height) by (nonlinear_arith)
            requires
                i == pre.width * y + x,
                0 <= x < pre.width,
                0 <= i < pre.width * pre.height,
                1 <= pre.width,
        {}
        assert(pre.cell_idx(x, y) == i) by (nonlinear_arith)
            requires
                i == pre.width * y + x,
                pre.cell_idx(x, y) == y * pre.width + x,
        {}
        if !covers(origin, size, x, y) {
            assert(post.terrain_at(x, y) == pre.terrain_at(x, y));
            assert(post.tiles[i] == pre.tiles[i]);
        }
    }
}

/// A one-by-one footprint marks exactly one cell: the origin cell becomes
/// occupied and every other cell keeps its terrain.
pub proof fn lemma_modify_rectangle_single_cell(pre: GridModel, post: GridModel, origin: GridPos)
    requires
        pre.wf(),
        pre.in_bounds(origin.x as int, origin.y as int),
        modify_rect_rel(pre, post, origin, (Footprint { x: 1, y: 1 })),
    ensures
        post.terrain_at(origin.x as int, origin.y as int) == TERRAIN_OCCUPIED,
        forall|x: int, y: int|
            pre.in_bounds(x, y) && !(x == origin.x && y == origin.y)
                ==> #[trigger] post.terrain_at(x, y) == pre.terrain_at(x, y),
{
    assert(covers(origin, (Footprint { x: 1, y: 1 }), origin.x as int, origin.y as int));
}

/// The world coordinate of a bounded grid cell is itself bounded, and the
/// multiplication computing it stays within `i64`.
proof fn lemma_world_axis_bound(c: int, dim: int, extent: int, scale: int)
    requires
        1 <= extent <= u32::MAX,
        1 <= scale <= u16::MAX,
        -MAX_CELL_COORD <= c <= MAX_CELL_COORD,
    ensures
        -MAX_WORLD_COORD <= world_axis_of_grid(c, dim, extent, scale) <= MAX_WORLD_COORD,
{
    let f = 2 * c + even_offset(dim) + 1 - extent;
    assert(-MAX_WORLD_COORD <= scale * f <= MAX_WORLD_COORD) by (nonlinear_arith)
        requires
            1 <= scale <= 0x1_0000,
            -0x3_0000_0000 <= f <= 0x2_0000_0002,
    {}
}

} // verus!

