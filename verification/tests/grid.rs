use physarum::cell::Cell;
use physarum::fixed::UNIT;
use physarum::geometry::Point;
use physarum::grid::{shade, Grid, BLUR_INTENSITY, BLUR_RADIUS};
use physarum::random::RandomSource;

fn levels_of(grid: &Grid) -> Vec<[i64; 3]> {
    grid.snapshot().iter().map(|c| [c.channel(0), c.channel(1), c.channel(2)]).collect()
}

fn grid_of(width: usize, height: usize, radius: usize, levels: &[[i64; 3]]) -> Grid {
    let cells: Vec<Cell> = levels.iter().map(|l| Cell::from_channels(*l).unwrap()).collect();
    Grid::from_cells(width, height, radius, cells).unwrap()
}

fn one_lit_cell(radius: usize) -> Grid {
    let mut levels = vec![[0i64; 3]; 12];
    levels[5] = [UNIT, 500_000, 100_000];
    grid_of(4, 3, radius, &levels)
}

fn scattered(width: usize, height: usize, seed: u64) -> Vec<[i64; 3]> {
    let mut state = seed;
    let mut levels = Vec::new();
    for _ in 0..width * height {
        let mut cell = [0i64; 3];
        for ch in 0..3 {
            state = state.wrapping_mul(6364136223846793005).wrapping_add(1442695040888963407);
            cell[ch] = ((state >> 33) % 1_000_001) as i64;
        }
        levels.push(cell);
    }
    levels
}

fn wrapped(v: i64, side: usize) -> usize {
    v.rem_euclid(side as i64) as usize
}

fn plain_pass(levels: &[[i64; 3]], width: usize, height: usize, radius: i64, vertical: bool) -> Vec<[i64; 3]> {
    let mut out = levels.to_vec();
    for y in 0..height {
        for x in 0..width {
            for ch in 0..3 {
                let mut total: i64 = 0;
                for k in -radius..=radius {
                    let (sx, sy) = if vertical {
                        (x, wrapped(y as i64 + k, height))
                    } else {
                        (wrapped(x as i64 + k, width), y)
                    };
                    total += levels[sy * width + sx][ch];
                }
                let mean = total / (2 * radius + 1);
                let own = levels[y * width + x][ch];
                out[y * width + x][ch] = (own * (UNIT - BLUR_INTENSITY) + mean * BLUR_INTENSITY) / UNIT;
            }
        }
    }
    out
}

fn plain_decay(levels: &[[i64; 3]]) -> Vec<[i64; 3]> {
    levels
        .iter()
        .map(|c| {
            let mut d = [0i64; 3];
            for ch in 0..3 {
                d[ch] = if c[ch] > 65_000 { c[ch] - 65_000 } else { 0 };
            }
            d
        })
        .collect()
}

#[test]
fn new_grid_is_empty() {
    let g = Grid::new(5, 4);
    assert_eq!(g.width(), 5);
    assert_eq!(g.height(), 4);
    assert_eq!(g.radius(), BLUR_RADIUS);
    assert_eq!(g.snapshot().len(), 20);
    assert!(levels_of(&g).iter().all(|c| *c == [0, 0, 0]));
}

#[test]
fn with_radius_keeps_the_radius() {
    let g = Grid::with_radius(3, 2, 7);
    assert_eq!(g.radius(), 7);
    assert_eq!(g.snapshot().len(), 6);
}

#[test]
fn from_cells_rejects_a_wrong_shape() {
    let cells = vec![Cell::empty(); 11];
    assert!(Grid::from_cells(4, 3, 1, cells).is_none());
    assert!(Grid::from_cells(0, 3, 1, Vec::new()).is_none());
    assert!(Grid::from_cells(3, 0, 1, Vec::new()).is_none());
    assert!(Grid::from_cells(32_769, 1, 1, vec![Cell::empty(); 32_769]).is_none());
    assert!(Grid::from_cells(2, 2, 32_769, vec![Cell::empty(); 4]).is_none());
    assert!(Grid::from_cells(4, 3, 1, vec![Cell::empty(); 12]).is_some());
}

#[test]
fn cell_at_reads_row_by_row() {
    let levels: Vec<[i64; 3]> = (0..12).map(|i| [i as i64, 0, 0]).collect();
    let g = grid_of(4, 3, 1, &levels);
    assert_eq!(g.cell_at(0, 0).channel(0), 0);
    assert_eq!(g.cell_at(3, 0).channel(0), 3);
    assert_eq!(g.cell_at(0, 1).channel(0), 4);
    assert_eq!(g.cell_at(2, 2).channel(0), 10);
}

#[test]
fn cell_at_pt_finds_the_cell_under_a_point() {
    let levels: Vec<[i64; 3]> = (0..12).map(|i| [i as i64, 0, 0]).collect();
    let g = grid_of(4, 3, 1, &levels);
    assert_eq!(g.cell_at_pt(Point { x: 0, y: 0 }).channel(0), 0);
    assert_eq!(g.cell_at_pt(Point { x: 1_999_999, y: 999_999 }).channel(0), 1);
    assert_eq!(g.cell_at_pt(Point { x: 3_500_000, y: 2_500_000 }).channel(0), 11);
    assert_eq!(g.cell_at_pt(Point { x: -1, y: 0 }).channel(0), 3);
    assert_eq!(g.cell_at_pt(Point { x: 4_000_000, y: 3_000_000 }).channel(0), 0);
    assert_eq!(g.cell_at_pt(Point { x: 9_500_000, y: -500_000 }).channel(0), 9);
}

#[test]
fn cell_at_pt_mut_changes_that_cell_alone() {
    let mut g = Grid::new(4, 3);
    g.cell_at_pt_mut(Point { x: 1_500_000, y: 1_500_000 }).set_channel(2, 123_000);
    let levels = levels_of(&g);
    for (i, c) in levels.iter().enumerate() {
        if i == 5 {
            assert_eq!(*c, [0, 0, 123_000]);
        } else {
            assert_eq!(*c, [0, 0, 0]);
        }
    }
}

#[test]
fn deposit_at_touches_one_cell() {
    let mut g = Grid::new(4, 3);
    g.deposit_at(Point { x: -500_000, y: 2_000_000 }, &[UNIT, 500_000, 0]);
    let levels = levels_of(&g);
    for (i, c) in levels.iter().enumerate() {
        if i == 11 {
            assert_eq!(*c, [310_000, 155_000, 0]);
        } else {
            assert_eq!(*c, [0, 0, 0]);
        }
    }
}

#[test]
fn decay_lowers_every_cell() {
    let levels = scattered(6, 5, 11);
    let mut g = grid_of(6, 5, 1, &levels);
    g.decay();
    assert_eq!(levels_of(&g), plain_decay(&levels));
}

#[test]
fn blur_with_radius_zero_changes_nothing() {
    let levels = scattered(7, 4, 3);
    let mut g = grid_of(7, 4, 0, &levels);
    g.blur();
    assert_eq!(levels_of(&g), levels);
}

#[test]
fn update_with_radius_zero_is_decay() {
    let levels = scattered(7, 4, 5);
    let mut g = grid_of(7, 4, 0, &levels);
    let mut d = grid_of(7, 4, 0, &levels);
    g.update();
    d.decay();
    assert_eq!(levels_of(&g), levels_of(&d));
    assert_eq!(levels_of(&g), plain_decay(&levels));
}

#[test]
fn blur_spreads_one_lit_cell() {
    let mut g = one_lit_cell(1);
    g.blur();
    let want: Vec<[i64; 3]> = vec![
        [13610, 6805, 1360],
        [89444, 44721, 8944],
        [13610, 6805, 1360],
        [0, 0, 0],
        [89443, 44721, 8943],
        [587777, 293888, 58777],
        [89443, 44721, 8943],
        [0, 0, 0],
        [13610, 6805, 1360],
        [89444, 44721, 8944],
        [13610, 6805, 1360],
        [0, 0, 0],
    ];
    assert_eq!(levels_of(&g), want);
}

#[test]
fn update_decays_then_blurs() {
    let mut g = one_lit_cell(1);
    g.update();
    let want: Vec<[i64; 3]> = vec![
        [12726, 5920, 476],
        [83630, 38908, 3130],
        [12726, 5920, 476],
        [0, 0, 0],
        [83630, 38908, 3130],
        [549571, 255683, 20571],
        [83630, 38908, 3130],
        [0, 0, 0],
        [12726, 5920, 476],
        [83630, 38908, 3130],
        [12726, 5920, 476],
        [0, 0, 0],
    ];
    assert_eq!(levels_of(&g), want);
}

#[test]
fn window_wider_than_the_grid_wraps_round() {
    let mut g = one_lit_cell(5);
    g.update();
    let want: Vec<[i64; 3]> = vec![
        [11358, 5284, 424],
        [88708, 41270, 3320],
        [11358, 5284, 424],
        [7572, 3522, 283],
        [66531, 30952, 2489],
        [519581, 241729, 19448],
        [66531, 30952, 2489],
        [44354, 20634, 1660],
        [11358, 5284, 424],
        [88708, 41270, 3320],
        [11358, 5284, 424],
        [7572, 3522, 283],
    ];
    assert_eq!(levels_of(&g), want);
}

#[test]
fn sliding_sum_agrees_with_a_plain_sum() {
    for (width, height, radius, seed) in
        [(9usize, 6usize, 1usize, 1u64), (5, 8, 2, 2), (1, 1, 3, 3), (12, 1, 4, 4), (1, 7, 1, 5), (6, 6, 9, 6)]
    {
        let levels = scattered(width, height, seed);
        let mut g = grid_of(width, height, radius, &levels);
        g.blur();
        let first = plain_pass(&levels, width, height, radius as i64, false);
        let want = plain_pass(&first, width, height, radius as i64, true);
        assert_eq!(levels_of(&g), want);
    }
}

#[test]
fn update_agrees_with_a_plain_sum_over_many_ticks() {
    let mut levels = scattered(8, 5, 21);
    let mut g = grid_of(8, 5, 1, &levels);
    for _ in 0..12 {
        g.update();
        let d = plain_decay(&levels);
        let first = plain_pass(&d, 8, 5, 1, false);
        levels = plain_pass(&first, 8, 5, 1, true);
        assert_eq!(levels_of(&g), levels);
    }
}

#[test]
fn channels_stay_in_the_unit_interval_over_many_ticks() {
    let mut g = grid_of(6, 6, 2, &scattered(6, 6, 99));
    for tick in 0..60 {
        if tick % 2 == 0 {
            g.deposit_at(Point { x: 2_500_000, y: 3_500_000 }, &[UNIT, UNIT, UNIT]);
        }
        g.update();
        for c in g.snapshot().iter() {
            assert!(c.is_valid());
        }
    }
}

#[test]
fn an_empty_grid_stays_empty() {
    let mut g = Grid::new(5, 5);
    for _ in 0..5 {
        g.update();
    }
    assert!(levels_of(&g).iter().all(|c| *c == [0, 0, 0]));
}

#[test]
fn a_full_grid_only_decays() {
    let mut g = grid_of(4, 4, 1, &vec![[UNIT; 3]; 16]);
    g.update();
    assert!(levels_of(&g).iter().all(|c| *c == [935_000, 935_000, 935_000]));
}

#[test]
fn noisy_grid_stays_under_its_ceiling() {
    let mut rng = RandomSource::seeded(7);
    let g = Grid::noisy(8, 8, 1, 50_000, &mut rng);
    let levels = levels_of(&g);
    assert_eq!(levels.len(), 64);
    assert!(levels.iter().all(|c| c.iter().all(|v| 0 <= *v && *v <= 50_000)));
    assert!(levels.iter().any(|c| c.iter().any(|v| *v != 0)));
    let quiet = Grid::noisy(3, 3, 1, 0, &mut rng);
    assert!(levels_of(&quiet).iter().all(|c| *c == [0, 0, 0]));
}

#[test]
fn shade_spreads_the_cutoffs_over_a_byte() {
    assert_eq!(shade(0), 0);
    assert_eq!(shade(100_000), 0);
    assert_eq!(shade(800_000), 255);
    assert_eq!(shade(UNIT), 255);
    assert_eq!(shade(450_000), 127);
    assert_eq!(shade(102_745), 0);
    assert_eq!(shade(102_746), 1);
}

#[test]
fn draw_gives_four_bytes_for_each_cell() {
    let mut levels = vec![[0i64; 3]; 6];
    levels[0] = [UNIT, 450_000, 0];
    levels[4] = [800_000, 100_000, 799_999];
    let g = grid_of(3, 2, 1, &levels);
    let pixels = g.draw();
    assert_eq!(pixels.len(), 24);
    assert_eq!(&pixels[0..4], &[255, 127, 0, 255]);
    assert_eq!(&pixels[4..8], &[0, 0, 0, 255]);
    assert_eq!(&pixels[16..20], &[255, 0, 254, 255]);
    assert_eq!(&pixels[20..24], &[0, 0, 0, 255]);
}
