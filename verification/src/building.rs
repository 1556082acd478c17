//! The placement state machine: spawn a preview footprint on request,
//! follow the cursor, gate confirmation on overlap and UI-focus state, and
//! commit to the grid or cancel.

use crate::overlap::OverlapSet;
use crate::world_grid::{
    world_axis_of_grid, modify_rect_rel, Footprint, GridPos, WorldGrid, WorldPos, MAX_CELL_COORD,
};
use vstd::prelude::*;

verus! {

/// A request, raised by a UI affordance, to start placing a footprint of
/// `size` cells; `pos` is the world position at which the preview spawns.
#[derive(Clone, Copy, Debug, PartialEq, Eq, Structural)]
pub struct SpawnRequest {
    pub size: Footprint,
    pub pos: WorldPos,
}

/// The decoupling queue through which UI affordances request placements.
/// The controller consumes it once per tick.
#[derive(Debug)]
pub struct SpawnQueue {
    events: Vec<SpawnRequest>,
}

impl View for SpawnQueue {
    type V = Seq<SpawnRequest>;

    closed spec fn view(&self) -> Seq<SpawnRequest> {
        self.events@
    }
}

impl SpawnQueue {
    /// An empty queue.
    pub fn new() -> (q: SpawnQueue)
        ensures
            q@ == Seq::<SpawnRequest>::empty(),
    {
        SpawnQueue { events: Vec::new() }
    }

    /// Appends a request.
    pub fn write(&mut self, r: SpawnRequest)
        ensures
            final(self)@ == old(self)@.push(r),
    {
        self.events.push(r);
    }

    /// Takes every queued request, in arrival order, leaving the queue
    /// empty.
    pub fn drain(&mut self) -> (rs: Vec<SpawnRequest>)
        ensures
            rs@ == old(self)@,
            final(self)@ == Seq::<SpawnRequest>::empty(),
    {
        let mut rs: Vec<SpawnRequest> = Vec::new();
        core::mem::swap(&mut rs, &mut self.events);
        rs
    }

    /// How many requests are waiting.
    pub fn len(&self) -> (n: usize)
        ensures
            n == self@.len(),
    {
        self.events.len()
    }
}

/// Given the unordered pair of an overlap notification and the identity of
/// the active preview, the member of the pair the notification is
/// attributed to: the other member when exactly one side is the preview,
/// and nothing otherwise.
pub open spec fn other_of_pair_spec(active: u64, a: u64, b: u64) -> Option<u64> {
    if a == active && b != active {
        Some(b)
    } else if b == active && a != active {
        Some(a)
    } else {
        None
    }
}

/// Executable counterpart of [`other_of_pair_spec`].
pub fn other_of_pair(active: u64, a: u64, b: u64) -> (r: Option<u64>)
    ensures
        r == other_of_pair_spec(active, a, b),
{
    if a == active && b != active {
        Some(b)
    } else if b == active && a != active {
        Some(a)
    } else {
        None
    }
}

/// The obstacle an overlap notification is attributed to: both entities
/// must be footprint-class, a placement must be active, and exactly one
/// side of the pair must be the active preview; the other side is then the
/// obstacle. Every other notification is ignored.
pub open spec fn attributed_obstacle(
    active: Option<u64>,
    a: u64,
    b: u64,
    a_is_footprint: bool,
    b_is_footprint: bool,
) -> Option<u64> {
    if a_is_footprint && b_is_footprint {
        match active {
            Some(f) => other_of_pair_spec(f, a, b),
            None => None,
        }
    } else {
        None
    }
}

/// The overlap set after an Overlap-Started notification.
pub open spec fn started_overlaps(
    active: Option<u64>,
    overlaps: Set<u64>,
    a: u64,
    b: u64,
    a_is_footprint: bool,
    b_is_footprint: bool,
) -> Set<u64> {
    match attributed_obstacle(active, a, b, a_is_footprint, b_is_footprint) {
        Some(o) => overlaps.insert(o),
        None => overlaps,
    }
}

/// The overlap set after an Overlap-Stopped notification.
pub open spec fn stopped_overlaps(
    active: Option<u64>,
    overlaps: Set<u64>,
    a: u64,
    b: u64,
    a_is_footprint: bool,
    b_is_footprint: bool,
) -> Set<u64> {
    match attributed_obstacle(active, a, b, a_is_footprint, b_is_footprint) {
        Some(o) => overlaps.remove(o),
        None => overlaps,
    }
}

/// Overlap set transition law: starting from an empty overlap set with
/// preview `f` active, an Overlap-Started between `f` and an obstacle `o`
/// yields exactly `{o}`, and a subsequent Overlap-Stopped for the same pair
/// empties the set again.
pub proof fn lemma_overlap_round_trip(overlaps: Set<u64>, f: u64, o: u64)
    requires
        overlaps.is_empty(),
        o != f,
    ensures
        started_overlaps(Some(f), overlaps, f, o, true, true) == set![o],
        stopped_overlaps(
            Some(f),
            started_overlaps(Some(f), overlaps, f, o, true, true),
            f,
            o,
            true,
            true,
        ) == overlaps,
{
    assert(overlaps.insert(o) =~= set![o]);
    assert(set![o].remove(o) =~= overlaps);
}

/// The mutable session state for the building currently being placed.
#[derive(Debug)]
pub struct BuildingControlState {
    /// Grid cell currently under the pointer, refreshed every tick.
    pub cur_cel: GridPos,
    /// Identity of the preview footprint object; absent while no placement
    /// is in progress.
    pub cur_building: Option<u64>,
    /// Footprint size, in cells, of the placement being previewed.
    pub cur_size: Footprint,
    /// Obstacles currently overlapping the preview.
    pub overlaps: OverlapSet,
}

impl BuildingControlState {
    /// Session invariant: the overlap set is duplicate-free and non-empty
    /// only while a placement is active, and the cursor cell is within the
    /// coordinate transforms' bound.
    pub open spec fn wf(self) -> bool {
        &&& self.overlaps.wf()
        &&& self.cur_building is None ==> self.overlaps@.is_empty()
        &&& -MAX_CELL_COORD <= self.cur_cel.x <= MAX_CELL_COORD
        &&& -MAX_CELL_COORD <= self.cur_cel.y <= MAX_CELL_COORD
    }

    /// A fresh, idle session: no active footprint, no overlaps, cursor on
    /// the world origin cell.
    pub fn new() -> (s: BuildingControlState)
        ensures
            s.wf(),
            s.cur_building is None,
            s.overlaps@ == Set::<u64>::empty(),
            s.cur_cel == (GridPos { x: 0, y: 0 }),
            s.cur_size == (Footprint { x: 0, y: 0 }),
    {
        BuildingControlState {
            cur_cel: GridPos { x: 0, y: 0 },
            cur_building: None,
            cur_size: Footprint { x: 0, y: 0 },
            overlaps: OverlapSet::new(),
        }
    }

    /// Whether a placement is being previewed.
    pub fn is_previewing(&self) -> (r: bool)
        ensures
            r == (self.cur_building is Some),
    {
        self.cur_building.is_some()
    }

    /// Whether the current preview is free of obstruction. This single
    /// boolean both gates confirmation and selects the preview's
    /// valid/invalid color, which a materials collaborator applies.
    pub fn preview_valid(&self) -> (r: bool)
        ensures
            r == self.overlaps@.is_empty(),
    {
        self.overlaps.is_empty()
    }

    /// Records the cursor's grid cell for this tick.
    pub fn set_cursor(&mut self, cell: GridPos)
        requires
            old(self).wf(),
            -MAX_CELL_COORD <= cell.x <= MAX_CELL_COORD,
            -MAX_CELL_COORD <= cell.y <= MAX_CELL_COORD,
        ensures
            final(self).wf(),
            final(self).cur_cel == cell,
            final(self).cur_building == old(self).cur_building,
            final(self).cur_size == old(self).cur_size,
            final(self).overlaps@ == old(self).overlaps@,
    {
        self.cur_cel = cell;
    }

    /// Raises a placement request from a UI affordance: records the
    /// requested footprint size and returns the request to queue, with the
    /// preview positioned on the current cursor cell. A request while a
    /// placement is already active is rejected: at most one preview is
    /// outstanding at a time.
    pub fn request_spawn(&mut self, grid: &WorldGrid, size: Footprint) -> (r: Option<
        SpawnRequest,
    >)
        requires
            old(self).wf(),
            grid@.wf(),
        ensures
            final(self).wf(),
            final(self).cur_cel == old(self).cur_cel,
            final(self).cur_building == old(self).cur_building,
            final(self).overlaps@ == old(self).overlaps@,
            match r {
                Some(req) => {
                    &&& old(self).cur_building is None
                    &&& final(self).cur_size == size
                    &&& req.size == size
                    &&& req.pos.hx == world_axis_of_grid(
                        old(self).cur_cel.x as int,
                        size.x as int,
                        grid@.width,
                        grid@.scale,
                    )
                    &&& req.pos.hy == world_axis_of_grid(
                        old(self).cur_cel.y as int,
                        size.y as int,
                        grid@.height,
                        grid@.scale,
                    )
                },
                None => old(self).cur_building is Some && *final(self) == *old(self),
            },
    {
        if self.cur_building.is_some() {
            return None;
        }
        self.cur_size = size;
        let pos = grid.grid_to_world(self.cur_cel, size);
        Some(SpawnRequest { size, pos })
    }

    /// Attaches the preview object spawned for a consumed request,
    /// entering the previewing state. Ignored when a placement is somehow
    /// already active: at most one preview is outstanding at a time.
    pub fn begin_placement(&mut self, entity: u64) -> (started: bool)
        requires
            old(self).wf(),
        ensures
            final(self).wf(),
            started == (old(self).cur_building is None),
            started ==> {
                &&& final(self).cur_building == Some(entity)
                &&& final(self).cur_cel == old(self).cur_cel
                &&& final(self).cur_size == old(self).cur_size
                &&& final(self).overlaps@ == old(self).overlaps@
            },
            !started ==> *final(self) == *old(self),
    {
        if self.cur_building.is_none() {
            self.cur_building = Some(entity);
            true
        } else {
            false
        }
    }

    /// The world position at which the preview must stand this tick: the
    /// current footprint centered on the cursor cell. Absent while no
    /// placement is in progress.
    pub fn preview_position(&self, grid: &WorldGrid) -> (p: Option<WorldPos>)
        requires
            self.wf(),
            grid@.wf(),
        ensures
            match p {
                Some(pos) => {
                    &&& self.cur_building is Some
                    &&& pos.hx == world_axis_of_grid(
                        self.cur_cel.x as int,
                        self.cur_size.x as int,
                        grid@.width,
                        grid@.scale,
                    )
                    &&& pos.hy == world_axis_of_grid(
                        self.cur_cel.y as int,
                        self.cur_size.y as int,
                        grid@.height,
                        grid@.scale,
                    )
                },
                None => self.cur_building is None,
            },
    {
        if self.cur_building.is_some() {
            Some(grid.grid_to_world(self.cur_cel, self.cur_size))
        } else {
            None
        }
    }

    /// Consumes an Overlap-Started notification for the pair `(a, b)` with
    /// the given footprint-class tags: the obstacle the notification is
    /// attributed to, if any, enters the overlap set.
    pub fn overlap_started(&mut self, a: u64, b: u64, a_is_footprint: bool, b_is_footprint: bool)
        requires
            old(self).wf(),
        ensures
            final(self).wf(),
            final(self).cur_cel == old(self).cur_cel,
            final(self).cur_size == old(self).cur_size,
            final(self).cur_building == old(self).cur_building,
            final(self).overlaps@ == started_overlaps(
                old(self).cur_building,
                old(self).overlaps@,
                a,
                b,
                a_is_footprint,
                b_is_footprint,
            ),
    {
        if !(a_is_footprint && b_is_footprint) {
            return;
        }
        let active = match self.cur_building {
            Some(f) => f,
            None => {
                return;
            },
        };
        match other_of_pair(active, a, b) {
            Some(o) => self.overlaps.insert(o),
            None => {},
        }
    }

    /// Consumes an Overlap-Stopped notification for the pair `(a, b)` with
    /// the given footprint-class tags: the obstacle the notification is
    /// attributed to, if any, leaves the overlap set.
    pub fn overlap_stopped(&mut self, a: u64, b: u64, a_is_footprint: bool, b_is_footprint: bool)
        requires
            old(self).wf(),
        ensures
            final(self).wf(),
            final(self).cur_cel == old(self).cur_cel,
            final(self).cur_size == old(self).cur_size,
            final(self).cur_building == old(self).cur_building,
            final(self).overlaps@ == stopped_overlaps(
                old(self).cur_building,
                old(self).overlaps@,
                a,
                b,
                a_is_footprint,
                b_is_footprint,
            ),
    {
        if !(a_is_footprint && b_is_footprint) {
            return;
        }
        let active = match self.cur_building {
            Some(f) => f,
            None => {
                return;
            },
        };
        match other_of_pair(active, a, b) {
            Some(o) => self.overlaps.remove(o),
            None => {},
        }
    }

    /// Attempts to confirm the current placement on a primary-press edge.
    /// The press succeeds exactly while a placement is active, no obstacle
    /// overlaps the preview, and the pointer is over no blocking UI element
    /// (zero hover count); the footprint's cells are then locked into the
    /// grid at the cursor cell, the session returns to idle, and the
    /// confirmed object's identity is handed back for recoloring. Any other
    /// press leaves the session and the grid unchanged; in particular a
    /// press with no active placement is a guarded no-op rather than a
    /// failure.
    pub fn confirm(&mut self, grid: &mut WorldGrid, pressed: bool, hover_count: usize) -> (r:
        Option<u64>)
        requires
            old(self).wf(),
            old(grid)@.wf(),
        ensures
            final(self).wf(),
            final(grid)@.wf(),
            r == (if pressed && old(self).cur_building is Some && old(self).overlaps@.is_empty()
                && hover_count == 0 {
                old(self).cur_building
            } else {
                Option::<u64>::None
            }),
            r is Some ==> {
                &&& modify_rect_rel(
                    old(grid)@,
                    final(grid)@,
                    old(self).cur_cel,
                    old(self).cur_size,
                )
                &&& final(self).cur_building is None
                &&& final(self).overlaps@ == old(self).overlaps@
                &&& final(self).cur_cel == old(self).cur_cel
                &&& final(self).cur_size == old(self).cur_size
            },
            r is None ==> *final(self) == *old(self) && final(grid)@ == old(grid)@,
    {
        if !pressed {
            return None;
        }
        if self.cur_building.is_none() {
            return None;
        }
        if hover_count > 0 {
            return None;
        }
        if !self.overlaps.is_empty() {
            return None;
        }
        let r = self.cur_building;
        grid.modify_rectangle(self.cur_cel, self.cur_size);
        self.cur_building = None;
        r
    }

    /// Cancels any placement in progress without mutating the grid: clears
    /// the active footprint and the overlap set, handing back the preview
    /// object to despawn, if there was one.
    pub fn cancel(&mut self) -> (r: Option<u64>)
        requires
            old(self).wf(),
        ensures
            final(self).wf(),
            r == old(self).cur_building,
            final(self).cur_building is None,
            final(self).overlaps@ == Set::<u64>::empty(),
            final(self).cur_cel == old(self).cur_cel,
            final(self).cur_size == old(self).cur_size,
    {
        let r = self.cur_building;
        self.cur_building = None;
        self.overlaps = OverlapSet::new();
        r
    }
}

} // verus!
