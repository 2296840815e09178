use life_grid::{Cell, Universe};

fn make(width: u32, height: u32, alive: &[(u32, u32)]) -> Universe {
    let n = (width * height) as usize;
    let mut seed = vec![false; n];
    for &(r, c) in alive {
        seed[(r * width + c) as usize] = true;
    }
    Universe::new(width, height, &seed)
}

fn alive_positions(u: &Universe, width: u32) -> Vec<(u32, u32)> {
    let mut out = Vec::new();
    for (i, cell) in u.cells().iter().enumerate() {
        if *cell == Cell::Alive {
            out.push((i as u32 / width, i as u32 % width));
        }
    }
    out
}

#[test]
fn cell_weights() {
    assert_eq!(Cell::Dead.weight(), 0);
    assert_eq!(Cell::Alive.weight(), 1);
}

#[test]
fn cell_labels() {
    assert_eq!(Cell::Dead.label(), "Dead");
    assert_eq!(Cell::Alive.label(), "Alive");
}

#[test]
fn new_places_seeded_cells() {
    let u = make(3, 2, &[(0, 1), (1, 2)]);
    assert_eq!(u.width(), 3);
    assert_eq!(u.height(), 2);
    let cells = u.cells();
    assert_eq!(cells.len(), 6);
    assert_eq!(
        cells,
        vec![
            Cell::Dead,
            Cell::Alive,
            Cell::Dead,
            Cell::Dead,
            Cell::Dead,
            Cell::Alive,
        ]
    );
}

#[test]
fn zero_dimensions_are_degenerate() {
    let seed: Vec<bool> = Vec::new();
    let mut u = Universe::new(0, 5, &seed);
    assert_eq!(u.cells().len(), 0);
    u.tick();
    assert_eq!(u.cells().len(), 0);
    let picks: Vec<u8> = Vec::new();
    let bytes = u.paint_state(&picks);
    assert_eq!(bytes.len(), 0);
}

#[test]
fn index_wraps_both_coordinates() {
    // width 4, height 3: row 5 wraps to 2, column 7 wraps to 3.
    let u = make(4, 3, &[]);
    assert_eq!(u.get_index(5, 7), (5 % 3) * 4 + (7 % 4));
    assert_eq!(u.get_index(0, 0), 0);
    assert_eq!(u.get_index(2, 3), 11);
}

#[test]
fn index_is_periodic() {
    let u = make(4, 3, &[]);
    for row in 0..6u32 {
        for col in 0..8u32 {
            assert_eq!(u.get_index(row, col), u.get_index(row + 3, col + 4));
        }
    }
}

#[test]
fn position_recovers_reduced_coordinates() {
    let u = make(4, 3, &[]);
    for row in 0..6u32 {
        for col in 0..8u32 {
            let index = u.get_index(row, col);
            let (r, c) = u.get_pos(index as u32);
            assert_eq!((r, c), ((row % 3) as usize, (col % 4) as usize));
        }
    }
}

#[test]
fn neighbor_count_stays_within_eight() {
    // A fully live grid: every cell, corners and edges included, sees
    // exactly 8 live neighbors through the wraparound.
    let all: Vec<(u32, u32)> = (0..3).flat_map(|r| (0..3).map(move |c| (r, c))).collect();
    let u = make(3, 3, &all);
    for row in 0..3 {
        for col in 0..3 {
            assert_eq!(u.live_neighbor_count(row, col), 8);
        }
    }
}

#[test]
fn neighbor_count_wraps_at_corner() {
    // One live cell in the opposite corner of a 4x4 grid is a diagonal
    // neighbor of (0, 0) through the wraparound.
    let u = make(4, 4, &[(3, 3)]);
    assert_eq!(u.live_neighbor_count(0, 0), 1);
    assert_eq!(u.live_neighbor_count(1, 1), 0);
    assert_eq!(u.live_neighbor_count(3, 0), 1);
    assert_eq!(u.live_neighbor_count(0, 3), 1);
}

#[test]
fn single_cell_grid_wraps_onto_itself() {
    // In a 1x1 grid every neighbor offset wraps back to the one cell, so a
    // live cell counts itself 8 times and dies of overpopulation.
    let mut u = make(1, 1, &[(0, 0)]);
    assert_eq!(u.live_neighbor_count(0, 0), 8);
    u.tick();
    assert_eq!(u.cells(), vec![Cell::Dead]);
}

#[test]
fn dead_grid_stays_dead() {
    let mut u = make(4, 4, &[]);
    for _ in 0..5 {
        u.tick();
        assert!(u.cells().iter().all(|c| *c == Cell::Dead));
    }
}

#[test]
fn isolated_cell_dies() {
    let mut u = make(4, 4, &[(1, 1)]);
    u.tick();
    assert!(u.cells().iter().all(|c| *c == Cell::Dead));
}

#[test]
fn overpopulated_cell_dies() {
    // A plus shape: the center has 4 live neighbors and dies.
    let mut u = make(5, 5, &[(2, 2), (1, 2), (3, 2), (2, 1), (2, 3)]);
    u.tick();
    let cells = u.cells();
    assert_eq!(cells[(2 * 5 + 2) as usize], Cell::Dead);
}

#[test]
fn birth_needs_exactly_three_neighbors() {
    // Three live cells in an L: the dead cell closing the square has
    // exactly 3 live neighbors and comes alive.
    let mut u = make(5, 5, &[(1, 1), (1, 2), (2, 1)]);
    u.tick();
    let cells = u.cells();
    assert_eq!(cells[(2 * 5 + 2) as usize], Cell::Alive);
    // Every cell of the L has 2 live neighbors and survives.
    assert_eq!(cells[(1 * 5 + 1) as usize], Cell::Alive);
    assert_eq!(cells[(1 * 5 + 2) as usize], Cell::Alive);
    assert_eq!(cells[(2 * 5 + 1) as usize], Cell::Alive);
}

#[test]
fn blinker_oscillates_on_4x4() {
    let mut u = make(4, 4, &[(1, 0), (1, 1), (1, 2)]);
    u.tick();
    assert_eq!(alive_positions(&u, 4), vec![(0, 1), (1, 1), (2, 1)]);
    u.tick();
    assert_eq!(alive_positions(&u, 4), vec![(1, 0), (1, 1), (1, 2)]);
}

#[test]
fn blinker_oscillates_on_5x5() {
    let mut u = make(5, 5, &[(1, 0), (1, 1), (1, 2)]);
    u.tick();
    assert_eq!(alive_positions(&u, 5), vec![(0, 1), (1, 1), (2, 1)]);
    u.tick();
    assert_eq!(alive_positions(&u, 5), vec![(1, 0), (1, 1), (1, 2)]);
}

#[test]
fn paint_produces_exact_byte_count() {
    // width 2, height 1: 2*4 x 1*4 pixels, 4 bytes each = 128 bytes.
    let mut u = make(2, 1, &[]);
    let picks = vec![0u8; 2];
    let bytes = u.paint_state(&picks);
    assert_eq!(bytes.len(), 128);
}

#[test]
fn paint_colors_dead_cells() {
    let mut u = make(2, 1, &[]);
    let picks = vec![0u8; 2];
    let bytes = u.paint_state(&picks);
    for quad in bytes.chunks(4) {
        assert_eq!(quad, &[40, 40, 40, 255]);
    }
}

#[test]
fn paint_uses_selected_palette_color() {
    let alive = [(0, 0)];
    for (pick, color) in [
        (0u8, [141u8, 173, 130, 255]),
        (1u8, [181, 110, 48, 255]),
        (2u8, [135, 173, 163, 255]),
    ] {
        let mut u = make(1, 1, &alive);
        let picks = vec![pick];
        let bytes = u.paint_state(&picks);
        assert_eq!(bytes.len(), 64);
        for quad in bytes.chunks(4) {
            assert_eq!(quad, &color);
        }
    }
}

#[test]
fn blocks_are_uniform_and_placed_by_cell() {
    // 2x2 grid, one live cell per distinct palette pick plus a dead one:
    // every 4x4 block must be 16 identical quadruples of that cell's color.
    let mut u = make(2, 2, &[(0, 1), (1, 0), (1, 1)]);
    let picks = vec![0u8, 1, 2, 0];
    let bytes = u.paint_state(&picks);
    assert_eq!(bytes.len(), 256);
    let expect = |row: usize, col: usize| -> [u8; 4] {
        match (row, col) {
            (0, 0) => [40, 40, 40, 255],
            (0, 1) => [181, 110, 48, 255],
            (1, 0) => [135, 173, 163, 255],
            (1, 1) => [141, 173, 130, 255],
            _ => unreachable!(),
        }
    };
    for y in 0..8usize {
        for x in 0..8usize {
            let offset: usize = (y * 8 + x) * 4;
            let quad = &bytes[offset..offset + 4];
            assert_eq!(quad, &expect(y / 4, x / 4), "pixel ({}, {})", x, y);
        }
    }
}

#[test]
fn raster_keeps_painted_bytes() {
    let mut u = make(2, 2, &[(0, 0)]);
    assert_eq!(u.raster_data().len(), 256);
    let picks = vec![2u8; 4];
    let bytes = u.paint_state(&picks);
    assert_eq!(u.raster_data(), bytes);
    // Advancing a generation leaves the raster untouched.
    u.tick();
    assert_eq!(u.raster_data(), bytes);
}
