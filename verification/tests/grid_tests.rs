use confetti::Cell;
use confetti::GroundGrid;
use confetti::QuantizedColor;
use confetti::bitmap_to_bytes;
use confetti::isqrt;
use confetti::step_direction;
use confetti::FLOOR_ROWS;
use confetti::SCALE;

#[test]
fn new_grid_presets_floor() {
    let g = GroundGrid::new(100, 100);
    assert_eq!(g.width, 100);
    assert_eq!(g.height, 100);
    assert_eq!(g.cells.len(), 100 * 100);
    assert_eq!(g.buffer.len(), 4 * 100 * 100);
    // Bottom FLOOR_ROWS rows are solid white, everything above is empty.
    for col in 0..100usize {
        for row in 0..FLOOR_ROWS {
            let i = row * 100 + col;
            assert!(g.cells[i] == Cell::Solid(QuantizedColor { r: 255, g: 255, b: 255 }));
            assert_eq!(&g.buffer[4 * i..4 * i + 4], &[255, 255, 255, 255]);
        }
        let i = FLOOR_ROWS * 100 + col;
        assert!(g.cells[i] == Cell::Empty);
        assert_eq!(&g.buffer[4 * i..4 * i + 4], &[0, 0, 0, 255]);
    }
}

#[test]
fn paint_then_solid_and_buffer_bytes() {
    let mut g = GroundGrid::new(100, 100);
    let c = QuantizedColor::new(10, 20, 30);
    let i = 55 * 100 + 7;
    assert!(!g.is_solid(i));
    g.paint(i, c);
    assert!(g.is_solid(i));
    assert_eq!(&g.buffer[4 * i..4 * i + 4], &[10, 20, 30, 255]);
}

#[test]
fn paint_twice_same_color_is_idempotent() {
    let mut once = GroundGrid::new(40, 30);
    let mut twice = GroundGrid::new(40, 30);
    let c = QuantizedColor::new(1, 2, 3);
    let i = 17 * 40 + 5;
    once.paint(i, c);
    twice.paint(i, c);
    twice.paint(i, c);
    assert!(once.cells == twice.cells);
    assert!(once.buffer == twice.buffer);
}

#[test]
fn paint_overwrites_solid_cell() {
    let mut g = GroundGrid::new(20, 20);
    let i = 15 * 20 + 3;
    g.paint(i, QuantizedColor::new(200, 0, 0));
    g.paint(i, QuantizedColor::new(0, 0, 200));
    // Last writer wins.
    assert!(g.cells[i] == Cell::Solid(QuantizedColor::new(0, 0, 200)));
    assert_eq!(&g.buffer[4 * i..4 * i + 4], &[0, 0, 200, 255]);
}

#[test]
fn index_of_formula_and_bounds() {
    let g = GroundGrid::new(100, 100);
    // floor(y) * width + floor(x) for in-range positions.
    assert_eq!(g.index_of(0, 0), Some(0));
    assert_eq!(g.index_of(50 * SCALE + SCALE / 2, 9 * SCALE + 100), Some(9 * 100 + 50));
    assert_eq!(g.index_of(3 * SCALE + 1000, 7 * SCALE + 2), Some(7 * 100 + 3));
    assert_eq!(g.index_of(99 * SCALE + SCALE - 1, 99 * SCALE + SCALE - 1), Some(9999));
    // None exactly when x < 0, y < 0, floor(x) >= width, or floor(y) >= height.
    assert_eq!(g.index_of(-1, 0), None);
    assert_eq!(g.index_of(0, -1), None);
    assert_eq!(g.index_of(100 * SCALE, 0), None);
    assert_eq!(g.index_of(0, 100 * SCALE), None);
}

#[test]
fn bitmap_to_bytes_mirrors_cells() {
    let cells = vec![
        Cell::Empty,
        Cell::Solid(QuantizedColor::new(1, 2, 3)),
        Cell::Solid(QuantizedColor::new(255, 0, 9)),
    ];
    let bytes = bitmap_to_bytes(&cells);
    assert_eq!(bytes, vec![0, 0, 0, 255, 1, 2, 3, 255, 255, 0, 9, 255]);
}

#[test]
fn isqrt_exact_values() {
    assert_eq!(isqrt(0), 0);
    assert_eq!(isqrt(1), 1);
    assert_eq!(isqrt(15), 3);
    assert_eq!(isqrt(16), 4);
    assert_eq!(isqrt(6553600u64 * 6553600u64), 6553600);
    assert_eq!(isqrt(u64::MAX), 0xffff_ffff);
}

#[test]
fn step_direction_normalizes() {
    // Straight down: one whole cell down per step.
    assert_eq!(step_direction(0, -100 * SCALE), (0, -SCALE));
    // A 3-4-5 triangle: length 500, components scaled and truncated.
    assert_eq!(step_direction(300, 400), (300 * SCALE / 500, 400 * SCALE / 500));
    assert_eq!(step_direction(300, 400), (39321, 52428));
    // The zero velocity has no direction.
    assert_eq!(step_direction(0, 0), (0, 0));
    // Tiny velocities still give a nonzero step.
    assert_ne!(step_direction(1, 0), (0, 0));
    assert_ne!(step_direction(-1, 1), (0, 0));
}
