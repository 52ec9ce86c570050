use confetti::Cell;
use confetti::DebugInfo;
use confetti::GroundGrid;
use confetti::Particle;
use confetti::QuantizedColor;
use confetti::Resolution;
use confetti::out_of_viewport;
use confetti::reap;
use confetti::spawn_batch;
use confetti::SCALE;

// Scenario: 100 x 100 grid, floor rows 0..10 solid white; a particle
// embedded at grid-local (50, 9) falling straight down marches upward to
// the first empty cell (50, 10), paints it, and is removed.
#[test]
fn straight_down_particle_paints_first_empty_cell() {
    let mut g = GroundGrid::new(100, 100);
    let color = QuantizedColor::new(10, 200, 30);
    // Grid-local (50, 9) is world (0, -41) in cells.
    let p = Particle::new(0, -41 * SCALE, 0, -100 * SCALE, color);
    let r = g.resolve_particle(&p);
    let target = 10 * 100 + 50;
    assert_eq!(r, Resolution::Painted(target));
    assert!(g.is_solid(target));
    assert!(g.cells[target] == Cell::Solid(color));
    assert_eq!(&g.buffer[4 * target..4 * target + 4], &[10, 200, 30, 255]);
    // The embedded floor cell keeps its preset white color.
    let embedded = 9 * 100 + 50;
    assert_eq!(&g.buffer[4 * embedded..4 * embedded + 4], &[255, 255, 255, 255]);
}

// Scenario: a particle embedded deep in the floor with exactly zero
// velocity has no stable direction to back away along; the documented
// policy removes it without painting anything.
#[test]
fn zero_velocity_embedded_particle_removed_unpainted() {
    let mut g = GroundGrid::new(100, 100);
    let before_cells = g.cells.clone();
    let before_buffer = g.buffer.clone();
    // Grid-local (50, 5) is world (0, -45) in cells.
    let p = Particle::new(0, -45 * SCALE, 0, 0, QuantizedColor::new(9, 9, 9));
    let r = g.resolve_particle(&p);
    assert_eq!(r, Resolution::RemovedUnpainted);
    assert!(g.cells == before_cells);
    assert!(g.buffer == before_buffer);
}

// Scenario: a particle outside the grid is no contact for the resolver,
// but the lifecycle reaper removes it once it is outside the viewport.
#[test]
fn out_of_grid_particle_skipped_then_reaped() {
    let mut g = GroundGrid::new(100, 100);
    // Grid-local (-5, 50) is world (-55, 0) in cells.
    let p = Particle::new(-55 * SCALE, 0, 0, -100 * SCALE, QuantizedColor::new(1, 1, 1));
    let r = g.resolve_particle(&p);
    assert_eq!(r, Resolution::NoContact);
    assert!(out_of_viewport(&p, 100, 100));
    let mut info = DebugInfo::new();
    info.record_spawned(1);
    let kept = reap(&vec![p], 100, 100, &mut info);
    assert!(kept.is_empty());
    assert_eq!(info.entity_count, 0);
    assert!(!info.underflow_flagged);
}

// Scenario: two particles embedded at the same spot in the same tick.
// Processing is in sequence order, so the outcome is deterministic: the
// first paints the nearest empty cell, the second (seeing that cell now
// solid) marches one cell further. Reversing the order swaps the colors.
#[test]
fn two_embedded_particles_resolve_in_sequence_order() {
    let red = QuantizedColor::new(200, 0, 0);
    let blue = QuantizedColor::new(0, 0, 200);
    let p_red = Particle::new(0, -41 * SCALE, 0, -100 * SCALE, red);
    let p_blue = Particle::new(0, -41 * SCALE, 0, -100 * SCALE, blue);
    let first = 10 * 100 + 50;
    let second = 11 * 100 + 50;

    let mut g = GroundGrid::new(100, 100);
    let mut info = DebugInfo::new();
    info.record_spawned(2);
    let kept = g.resolve_all(&vec![p_red, p_blue], &mut info);
    assert!(kept.is_empty());
    assert_eq!(info.entity_count, 0);
    assert!(g.cells[first] == Cell::Solid(red));
    assert!(g.cells[second] == Cell::Solid(blue));

    let mut g2 = GroundGrid::new(100, 100);
    let mut info2 = DebugInfo::new();
    info2.record_spawned(2);
    let kept2 = g2.resolve_all(&vec![p_blue, p_red], &mut info2);
    assert!(kept2.is_empty());
    assert!(g2.cells[first] == Cell::Solid(blue));
    assert!(g2.cells[second] == Cell::Solid(red));
}

// A diagonally moving particle marches backward along its true negated
// velocity direction, not an axis-aligned approximation: falling
// down-right into the floor, it backs away up-left.
#[test]
fn diagonal_particle_marches_up_left() {
    let mut g = GroundGrid::new(100, 100);
    let color = QuantizedColor::new(77, 66, 55);
    // Embedded at grid-local (50, 9), moving down-right at (100, -100).
    let p = Particle::new(0, -41 * SCALE, 100 * SCALE, -100 * SCALE, color);
    let r = g.resolve_particle(&p);
    // Two unit steps up-left reach the first empty cell at (48, 10).
    let target = 10 * 100 + 48;
    assert_eq!(r, Resolution::Painted(target));
    assert!(g.is_solid(target));
    assert!(g.cells[target] == Cell::Solid(color));
}

// A particle resting above the floor on an empty cell is untouched by a
// whole resolver pass.
#[test]
fn untouched_particle_survives_resolve_all() {
    let mut g = GroundGrid::new(100, 100);
    let mut info = DebugInfo::new();
    info.record_spawned(1);
    // Grid-local (50, 60): world (0, 10) in cells, well above the floor.
    let p = Particle::new(0, 10 * SCALE, 0, -100 * SCALE, QuantizedColor::new(5, 5, 5));
    let kept = g.resolve_all(&vec![p], &mut info);
    assert_eq!(kept.len(), 1);
    assert!(kept[0] == p);
    assert_eq!(info.entity_count, 1);
}

#[test]
fn spawn_batch_positions_velocities_and_counter() {
    let mut info = DebugInfo::new();
    let color = QuantizedColor::new(7, 8, 9);
    // Unit directions: right, and straight down; speed factors 1.0 and 1.5.
    let dirs = vec![(SCALE, 0), (0, -SCALE)];
    let factors = vec![SCALE, SCALE + SCALE / 2];
    let batch = spawn_batch(1000, -2000, color, &dirs, &factors, &mut info);
    assert_eq!(batch.len(), 2);
    assert_eq!(batch[0].x, 1000 + 2 * SCALE);
    assert_eq!(batch[0].y, -2000);
    assert_eq!(batch[0].vx, 500 * SCALE);
    assert_eq!(batch[0].vy, 0);
    assert!(batch[0].color == color);
    assert_eq!(batch[1].x, 1000);
    assert_eq!(batch[1].y, -2000 - 2 * SCALE);
    assert_eq!(batch[1].vx, 0);
    assert_eq!(batch[1].vy, -750 * SCALE);
    assert_eq!(info.entity_count, 2);
}

#[test]
fn reap_keeps_in_view_particles_in_order() {
    let mut info = DebugInfo::new();
    info.record_spawned(3);
    let inside_a = Particle::new(0, 0, 0, 0, QuantizedColor::new(1, 1, 1));
    let outside = Particle::new(0, 51 * SCALE, 0, 0, QuantizedColor::new(2, 2, 2));
    let inside_b = Particle::new(-50 * SCALE, 50 * SCALE, 0, 0, QuantizedColor::new(3, 3, 3));
    let kept = reap(&vec![inside_a, outside, inside_b], 100, 100, &mut info);
    assert_eq!(kept.len(), 2);
    assert!(kept[0] == inside_a);
    assert!(kept[1] == inside_b);
    assert_eq!(info.entity_count, 2);
    assert!(!info.underflow_flagged);
}

// The live-particle counter follows the net sum of spawns and removals
// and never goes negative: an excess removal clamps at zero and raises
// the underflow flag instead of wrapping.
#[test]
fn counter_tracks_net_sum_and_clamps_at_zero() {
    let mut info = DebugInfo::new();
    assert_eq!(info.entity_count, 0);
    info.record_spawned(3);
    assert_eq!(info.entity_count, 3);
    info.record_removal();
    assert_eq!(info.entity_count, 2);
    info.record_spawned(2);
    assert_eq!(info.entity_count, 4);
    for _ in 0..4 {
        info.record_removal();
    }
    assert_eq!(info.entity_count, 0);
    assert!(!info.underflow_flagged);
    info.record_removal();
    assert_eq!(info.entity_count, 0);
    assert!(info.underflow_flagged);
}

#[test]
fn mouse_position_is_recorded() {
    let mut info = DebugInfo::new();
    info.note_mouse(123, -456);
    assert_eq!(info.mouse_x, 123);
    assert_eq!(info.mouse_y, -456);

    let mut mouse = confetti::MousePointer::new();
    mouse.set(123, -456);
    assert_eq!(mouse.x, 123);
    assert_eq!(mouse.y, -456);
}
