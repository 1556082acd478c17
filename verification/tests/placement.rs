use grid_placement::building::{other_of_pair, BuildingControlState, SpawnQueue};
use grid_placement::states::{game_state_control_building, GameControlState};
use grid_placement::world_grid::{Footprint, GridPos, WorldGrid, WorldPos};

fn occupied_count(grid: &WorldGrid) -> u64 {
    let mut count: u64 = 0;
    for y in 0..grid.height() as i64 {
        for x in 0..grid.width() as i64 {
            if let Some(t) = grid.tile(GridPos { x, y }) {
                if t.terrain_type != 0 {
                    count += 1;
                }
            }
        }
    }
    count
}

fn previewing_state(preview: u64) -> BuildingControlState {
    let mut state = BuildingControlState::new();
    assert!(state.begin_placement(preview));
    state
}

// Overlap attribution policy, chosen deliberately: a notification is
// attributed by symmetric pair matching. When exactly one side of the pair
// is the active preview, the other side is the obstacle; a pair in which
// the preview takes no part, or a degenerate self-pair, is ignored. Each
// notification therefore tracks at most one obstacle, and obstacles beyond
// the first arrive through their own notifications (see
// overlap_events_track_multiple_obstacles).

#[test]
fn overlap_started_then_stopped_round_trip() {
    let mut state = previewing_state(1);
    assert!(state.preview_valid());
    state.overlap_started(1, 42, true, true);
    assert!(!state.preview_valid());
    assert!(state.overlaps.contains(42));
    assert_eq!(state.overlaps.len(), 1);
    state.overlap_stopped(1, 42, true, true);
    assert!(state.preview_valid());
    assert_eq!(state.overlaps.len(), 0);
}

#[test]
fn overlap_events_track_multiple_obstacles() {
    let mut state = previewing_state(1);
    state.overlap_started(1, 42, true, true);
    state.overlap_started(43, 1, true, true);
    assert_eq!(state.overlaps.len(), 2);
    assert!(state.overlaps.contains(42) && state.overlaps.contains(43));
    state.overlap_stopped(1, 42, true, true);
    assert!(!state.overlaps.contains(42) && state.overlaps.contains(43));
    state.overlap_stopped(43, 1, true, true);
    assert!(state.preview_valid());
}

#[test]
fn overlap_events_ignore_non_footprint_pairs() {
    let mut state = previewing_state(1);
    state.overlap_started(1, 42, false, true);
    state.overlap_started(1, 42, true, false);
    assert!(state.preview_valid());
}

#[test]
fn overlap_events_ignore_pairs_not_involving_the_preview() {
    let mut state = previewing_state(1);
    // Both participants are footprint-class but neither is the preview.
    state.overlap_started(7, 8, true, true);
    assert!(state.preview_valid());
    // A degenerate self-pair of the preview is not attributable either.
    state.overlap_started(1, 1, true, true);
    assert!(state.preview_valid());
}

#[test]
fn overlap_events_ignore_while_idle() {
    let mut state = BuildingControlState::new();
    state.overlap_started(7, 8, true, true);
    assert!(state.preview_valid());
    assert!(state.cur_building.is_none());
}

#[test]
fn other_of_pair_picks_the_non_preview_member() {
    assert_eq!(other_of_pair(1, 1, 9), Some(9));
    assert_eq!(other_of_pair(1, 9, 1), Some(9));
    assert_eq!(other_of_pair(1, 8, 9), None);
    assert_eq!(other_of_pair(1, 1, 1), None);
}

#[test]
fn confirm_rejected_while_overlapping() {
    let mut grid = WorldGrid::new(20, 20, 5);
    let mut state = previewing_state(1);
    state.set_cursor(GridPos { x: 10, y: 10 });
    state.overlap_started(1, 42, true, true);
    let r = state.confirm(&mut grid, true, 0);
    assert_eq!(r, None);
    assert!(state.is_previewing());
    assert_eq!(state.cur_building, Some(1));
    assert_eq!(occupied_count(&grid), 0);
}

#[test]
fn confirm_rejected_while_pointer_over_ui() {
    let mut grid = WorldGrid::new(20, 20, 5);
    let mut state = previewing_state(1);
    state.set_cursor(GridPos { x: 10, y: 10 });
    let r = state.confirm(&mut grid, true, 1);
    assert_eq!(r, None);
    assert!(state.is_previewing());
    assert_eq!(occupied_count(&grid), 0);
}

#[test]
fn confirm_needs_a_press_edge() {
    let mut grid = WorldGrid::new(20, 20, 5);
    let mut state = previewing_state(1);
    let r = state.confirm(&mut grid, false, 0);
    assert_eq!(r, None);
    assert!(state.is_previewing());
}

#[test]
fn confirm_with_no_active_placement_is_a_no_op() {
    let mut grid = WorldGrid::new(20, 20, 5);
    let mut state = BuildingControlState::new();
    let r = state.confirm(&mut grid, true, 0);
    assert_eq!(r, None);
    assert!(!state.is_previewing());
    assert_eq!(occupied_count(&grid), 0);
}

#[test]
fn cancel_discards_preview_and_overlaps_without_building() {
    let grid = WorldGrid::new(20, 20, 5);
    let mut state = previewing_state(9);
    state.overlap_started(9, 42, true, true);
    let r = state.cancel();
    assert_eq!(r, Some(9));
    assert!(!state.is_previewing());
    assert!(state.preview_valid());
    assert_eq!(occupied_count(&grid), 0);
    // Cancelling while idle hands back nothing.
    assert_eq!(state.cancel(), None);
}

#[test]
fn request_spawn_records_size_and_position() {
    let grid = WorldGrid::new(160, 160, 25);
    let mut state = BuildingControlState::new();
    state.set_cursor(GridPos { x: 10, y: 10 });
    let req = state
        .request_spawn(&grid, Footprint { x: 4, y: 2 })
        .unwrap();
    assert_eq!(req.size, Footprint { x: 4, y: 2 });
    assert_eq!(req.pos, WorldPos { hx: -3450, hy: -3450 });
    assert_eq!(state.cur_size, Footprint { x: 4, y: 2 });
}

#[test]
fn request_spawn_rejected_while_previewing() {
    let grid = WorldGrid::new(160, 160, 25);
    let mut state = previewing_state(1);
    state.cur_size = Footprint { x: 4, y: 2 };
    let r = state.request_spawn(&grid, Footprint { x: 4, y: 5 });
    assert!(r.is_none());
    assert_eq!(state.cur_size, Footprint { x: 4, y: 2 });
}

#[test]
fn begin_placement_ignored_while_previewing() {
    let mut state = previewing_state(1);
    assert!(!state.begin_placement(2));
    assert_eq!(state.cur_building, Some(1));
}

#[test]
fn spawn_queue_hands_requests_back_in_order() {
    let grid = WorldGrid::new(160, 160, 25);
    let mut state = BuildingControlState::new();
    let mut queue = SpawnQueue::new();
    let a = state.request_spawn(&grid, Footprint { x: 4, y: 2 }).unwrap();
    queue.write(a);
    state.cancel();
    let b = state.request_spawn(&grid, Footprint { x: 4, y: 5 }).unwrap();
    queue.write(b);
    assert_eq!(queue.len(), 2);
    let drained = queue.drain();
    assert_eq!(drained.len(), 2);
    assert_eq!(drained[0], a);
    assert_eq!(drained[1], b);
    assert_eq!(queue.len(), 0);
}

#[test]
fn preview_position_follows_the_cursor() {
    let grid = WorldGrid::new(160, 160, 25);
    let mut state = BuildingControlState::new();
    assert_eq!(state.preview_position(&grid), None);
    state.request_spawn(&grid, Footprint { x: 4, y: 2 }).unwrap();
    state.begin_placement(5);
    state.set_cursor(GridPos { x: 10, y: 10 });
    let pos = state.preview_position(&grid).unwrap();
    assert_eq!(pos, grid.grid_to_world(GridPos { x: 10, y: 10 }, Footprint { x: 4, y: 2 }));
}

#[test]
fn building_mode_exits_on_toggle() {
    assert_eq!(game_state_control_building(true), Some(GameControlState::Default));
    assert_eq!(game_state_control_building(false), None);
}

#[test]
fn end_to_end_placement_scenario() {
    // A 160x160-cell grid at scale 25, as the simulation starts with.
    let mut grid = WorldGrid::new(160, 160, 25);
    let mut state = BuildingControlState::new();
    let mut queue = SpawnQueue::new();

    // A UI affordance requests a 4x2 footprint; the preview spawns at the
    // grid-derived world position for the current cursor cell.
    let req = state.request_spawn(&grid, Footprint { x: 4, y: 2 }).unwrap();
    queue.write(req);

    // The controller consumes the request once per tick and attaches the
    // spawned preview object.
    let requests = queue.drain();
    assert_eq!(requests.len(), 1);
    assert!(state.begin_placement(100));
    assert!(state.is_previewing());

    // The cursor moves to cell (10, 10); the tick update repositions the
    // preview onto it.
    state.set_cursor(GridPos { x: 10, y: 10 });
    let pos = state.preview_position(&grid).unwrap();
    assert_eq!(pos, grid.grid_to_world(GridPos { x: 10, y: 10 }, Footprint { x: 4, y: 2 }));
    assert_eq!(pos, WorldPos { hx: -3450, hy: -3450 });

    // A pointer press with empty overlaps and zero hover count confirms.
    let confirmed = state.confirm(&mut grid, true, 0);
    assert_eq!(confirmed, Some(100));
    assert!(!state.is_previewing());

    // The 4x2 region around (10, 10) is now occupied, and nothing else.
    for x in 9..=12 {
        for y in 10..=11 {
            assert_eq!(grid.tile(GridPos { x, y }).unwrap().terrain_type, 1);
        }
    }
    assert_eq!(occupied_count(&grid), 8);
}
