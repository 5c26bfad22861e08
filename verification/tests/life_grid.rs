use emotion_contagion::config::ConfigError;
use emotion_contagion::fixed::UNIT;
use emotion_contagion::life::emotions::{EmotionCell, EmotionType, GridStats};
use emotion_contagion::life::grid::EmotionGrid;
use rand::rngs::StdRng;
use rand::SeedableRng;

const CELL: u64 = 2 * UNIT;

fn world(cell: usize) -> i64 {
    (cell as i64) * (CELL as i64) + (CELL as i64) / 2
}

fn alive_cells(grid: &EmotionGrid) -> usize {
    grid.grid.iter().map(|row| row.iter().filter(|c| c.alive).count()).sum()
}

#[test]
fn new_grid_is_dead_and_empty() {
    let grid = EmotionGrid::new(4, 3, CELL);
    assert_eq!(grid.width, 4);
    assert_eq!(grid.height, 3);
    assert_eq!(grid.cell_size, CELL);
    assert_eq!(grid.update_count, 0);
    assert_eq!(grid.grid.len(), 3);
    for row in &grid.grid {
        assert_eq!(row.len(), 4);
        for cell in row {
            assert_eq!(*cell, EmotionCell::new());
        }
    }
}

#[test]
fn try_new_names_the_defect() {
    assert_eq!(EmotionGrid::try_new(0, 3, CELL).err(), Some(ConfigError::ZeroWidth));
    assert_eq!(EmotionGrid::try_new(0, 0, 0).err(), Some(ConfigError::ZeroWidth));
    assert_eq!(EmotionGrid::try_new(3, 0, CELL).err(), Some(ConfigError::ZeroHeight));
    assert_eq!(EmotionGrid::try_new(3, 3, 0).err(), Some(ConfigError::ZeroCellSize));
    assert_eq!(EmotionGrid::try_new(70_000, 70_000, 1).err(), Some(ConfigError::TooLarge));
    assert_eq!(EmotionGrid::try_new(2, 2, u64::MAX).err(), Some(ConfigError::TooLarge));
    let grid = EmotionGrid::try_new(3, 2, CELL).ok().unwrap();
    assert_eq!((grid.width, grid.height), (3, 2));
}

#[test]
fn new_with_emotion_clamps_intensity() {
    let cell = EmotionCell::new_with_emotion(EmotionType::Fear, 3 * UNIT);
    assert!(cell.alive);
    assert_eq!(cell.emotion, Some(EmotionType::Fear));
    assert_eq!(cell.intensity, UNIT);
    assert_eq!(EmotionCell::new_with_emotion(EmotionType::Fear, 250_000).intensity, 250_000);
}

#[test]
fn catalogue_has_nine_emotions_in_order() {
    let all = EmotionType::all();
    assert_eq!(
        all,
        vec![
            EmotionType::Joy,
            EmotionType::Sadness,
            EmotionType::Anger,
            EmotionType::Fear,
            EmotionType::Disgust,
            EmotionType::Anxiety,
            EmotionType::Love,
            EmotionType::Envy,
            EmotionType::Embarrassment,
        ]
    );
    assert_eq!(EmotionType::Joy.name(), "Joy");
    assert_eq!(EmotionType::Embarrassment.name(), "Embarrassment");
    assert_eq!(EmotionType::Joy.emoji(), "\u{1F60A}");
    assert_eq!(EmotionType::Love.emoji(), "\u{1F495}");
    let c = EmotionType::Anger.color();
    assert_eq!((c.r, c.g, c.b, c.a), (750_000, 380_000, 420_000, 1_000_000));
}

#[test]
fn display_color_dims_with_intensity() {
    let dead = EmotionCell::new().display_color();
    assert_eq!((dead.r, dead.g, dead.b, dead.a), (0, 0, 0, 0));
    let mut plain = EmotionCell::new();
    plain.alive = true;
    let gray = plain.display_color();
    assert_eq!((gray.r, gray.g, gray.b, gray.a), (400_000, 400_000, 400_000, 1_000_000));
    let full = EmotionCell::new_with_emotion(EmotionType::Joy, UNIT).display_color();
    assert_eq!((full.r, full.g, full.b, full.a), (640_000, 750_000, 550_000, 1_000_000));
    let half = EmotionCell::new_with_emotion(EmotionType::Joy, 500_000).display_color();
    assert_eq!((half.r, half.g, half.b, half.a), (416_000, 487_500, 357_500, 1_000_000));
    let faint = EmotionCell::new_with_emotion(EmotionType::Joy, 100_000).display_color();
    assert_eq!((faint.r, faint.g, faint.b), (400_000, 400_000, 400_000));
}

#[test]
fn add_emotion_source_seeds_the_cell_under_the_position() {
    let mut grid = EmotionGrid::new(5, 5, CELL);
    grid.add_emotion_source(EmotionType::Love, world(3), world(1));
    assert_eq!(grid.grid[1][3], EmotionCell::new_with_emotion(EmotionType::Love, UNIT));
    assert_eq!(alive_cells(&grid), 1);
    grid.add_emotion_source(EmotionType::Anger, world(3), world(1));
    assert_eq!(grid.grid[1][3].emotion, Some(EmotionType::Anger));
    assert_eq!(alive_cells(&grid), 1);
}

#[test]
fn add_emotion_source_ignores_positions_outside_the_grid() {
    let mut grid = EmotionGrid::new(5, 5, CELL);
    grid.add_emotion_source(EmotionType::Joy, world(5), world(0));
    grid.add_emotion_source(EmotionType::Joy, world(0), world(5));
    grid.add_emotion_source(EmotionType::Joy, -1, world(0));
    grid.add_emotion_source(EmotionType::Joy, world(0), -1);
    grid.add_emotion_source(EmotionType::Joy, i64::MAX, i64::MAX);
    grid.add_emotion_source(EmotionType::Joy, i64::MIN, i64::MIN);
    assert_eq!(alive_cells(&grid), 0);
    grid.add_emotion_source(EmotionType::Joy, 0, 0);
    assert!(grid.grid[0][0].alive);
    grid.add_emotion_source(EmotionType::Joy, 5 * (CELL as i64) - 1, 5 * (CELL as i64) - 1);
    assert!(grid.grid[4][4].alive);
}

#[test]
fn count_neighbors_does_not_wrap_around() {
    let mut grid = EmotionGrid::new(3, 3, CELL);
    for y in 0..3 {
        for x in 0..3 {
            grid.grid[y][x].alive = true;
        }
    }
    assert_eq!(grid.count_neighbors(1, 1), 8);
    assert_eq!(grid.count_neighbors(0, 0), 3);
    assert_eq!(grid.count_neighbors(2, 0), 3);
    assert_eq!(grid.count_neighbors(1, 0), 5);
    assert_eq!(grid.count_neighbors(0, 1), 5);
    assert_eq!(grid.count_neighbors(2, 2), 3);
    assert_eq!(grid.count_neighbors(3, 3), 1);
    assert_eq!(grid.count_neighbors(7, 7), 0);
    assert_eq!(grid.count_neighbors(usize::MAX, usize::MAX), 0);
    grid.grid[1][1].alive = false;
    assert_eq!(grid.count_neighbors(0, 0), 2);
    assert_eq!(grid.count_neighbors(1, 1), 8);
}

#[test]
fn neighbor_emotions_come_in_scan_order_and_skip_the_faint() {
    let mut grid = EmotionGrid::new(3, 3, CELL);
    grid.grid[0][0] = EmotionCell::new_with_emotion(EmotionType::Joy, 200_000);
    grid.grid[0][2] = EmotionCell::new_with_emotion(EmotionType::Fear, 100_000);
    grid.grid[1][0] = EmotionCell::new_with_emotion(EmotionType::Anger, 300_000);
    grid.grid[1][1] = EmotionCell::new_with_emotion(EmotionType::Love, 900_000);
    grid.grid[2][2] = EmotionCell::new_with_emotion(EmotionType::Envy, 100_001);
    grid.grid[2][1] = EmotionCell { alive: false, emotion: Some(EmotionType::Disgust), intensity: UNIT };
    grid.grid[1][2] = EmotionCell { alive: true, emotion: None, intensity: UNIT };
    assert_eq!(
        grid.get_neighbor_emotions(1, 1),
        vec![
            (EmotionType::Joy, 200_000),
            (EmotionType::Anger, 300_000),
            (EmotionType::Envy, 100_001),
        ]
    );
    assert_eq!(
        grid.get_neighbor_emotions(0, 0),
        vec![(EmotionType::Anger, 300_000), (EmotionType::Love, 900_000)]
    );
}

#[test]
fn dominant_emotion_has_the_largest_total() {
    let grid = EmotionGrid::new(1, 1, CELL);
    assert_eq!(grid.get_dominant_emotion(&[]), None);
    assert_eq!(
        grid.get_dominant_emotion(&[
            (EmotionType::Fear, 400_000),
            (EmotionType::Joy, 300_000),
            (EmotionType::Joy, 300_000),
            (EmotionType::Anger, 500_000),
        ]),
        Some((EmotionType::Joy, 600_000))
    );
    assert_eq!(
        grid.get_dominant_emotion(&[(EmotionType::Envy, 0)]),
        Some((EmotionType::Envy, 0))
    );
}

#[test]
fn dominant_emotion_breaks_ties_by_catalogue_order() {
    let grid = EmotionGrid::new(1, 1, CELL);
    let one = [(EmotionType::Sadness, 500_000), (EmotionType::Joy, 500_000)];
    let other = [(EmotionType::Joy, 500_000), (EmotionType::Sadness, 500_000)];
    for _ in 0..20 {
        assert_eq!(grid.get_dominant_emotion(&one), Some((EmotionType::Joy, 500_000)));
        assert_eq!(grid.get_dominant_emotion(&other), Some((EmotionType::Joy, 500_000)));
    }
    assert_eq!(
        grid.get_dominant_emotion(&[
            (EmotionType::Embarrassment, 200_000),
            (EmotionType::Envy, 100_000),
            (EmotionType::Envy, 100_000),
        ]),
        Some((EmotionType::Envy, 200_000))
    );
    assert_eq!(
        grid.get_dominant_emotion(&[(EmotionType::Love, u64::MAX), (EmotionType::Love, 5), (EmotionType::Anger, u64::MAX)]),
        Some((EmotionType::Anger, u64::MAX))
    );
}

#[test]
fn dead_cell_with_three_live_neighbors_is_born() {
    let mut grid = EmotionGrid::new(3, 3, CELL);
    grid.grid[0][0].alive = true;
    grid.grid[0][1].alive = true;
    grid.grid[0][2].alive = true;
    let stats = grid.update();
    assert!(grid.grid[1][1].alive);
    assert!(!grid.grid[0][0].alive);
    assert!(grid.grid[0][1].alive);
    assert!(!grid.grid[0][2].alive);
    assert_eq!(stats.births, 1);
    assert_eq!(stats.deaths, 2);
    assert_eq!(stats.alive_count, 2);
    assert_eq!(stats.emotion_count, 0);
    assert_eq!(stats.emotion_spreads, 0);
    assert_eq!(grid.update_count, 1);
}

#[test]
fn live_cell_with_one_live_neighbor_dies() {
    let mut grid = EmotionGrid::new(4, 4, CELL);
    grid.grid[1][1].alive = true;
    grid.grid[1][2].alive = true;
    let stats = grid.update();
    assert_eq!(alive_cells(&grid), 0);
    assert_eq!(stats.deaths, 2);
    assert_eq!(stats.births, 0);
    assert_eq!(stats.alive_count, 0);
}

#[test]
fn isolated_emotion_fades_to_nine_tenths_each_tick() {
    let mut grid = EmotionGrid::new(5, 5, CELL);
    grid.grid[2][2] = EmotionCell::new_with_emotion(EmotionType::Sadness, UNIT);
    grid.update();
    assert_eq!(
        grid.grid[2][2],
        EmotionCell { alive: false, emotion: Some(EmotionType::Sadness), intensity: 900_000 }
    );
    grid.update();
    assert_eq!(grid.grid[2][2].intensity, 810_000);
    grid.update();
    assert_eq!(grid.grid[2][2].intensity, 729_000);
    grid.grid[2][2].intensity = 7;
    grid.update();
    assert_eq!(grid.grid[2][2].intensity, 6);
    for _ in 0..10 {
        grid.update();
    }
    assert_eq!(grid.grid[2][2].intensity, 0);
}

#[test]
fn block_is_stable_and_takes_its_neighbors_emotion() {
    let mut grid = EmotionGrid::new(4, 4, CELL);
    grid.grid[1][1] = EmotionCell::new_with_emotion(EmotionType::Joy, UNIT);
    grid.grid[1][2].alive = true;
    grid.grid[2][1].alive = true;
    grid.grid[2][2].alive = true;
    let stats = grid.update();
    assert_eq!(
        stats,
        GridStats { alive_count: 4, emotion_count: 4, births: 0, deaths: 0, emotion_spreads: 3 }
    );
    assert_eq!(grid.grid[1][1], EmotionCell { alive: true, emotion: Some(EmotionType::Joy), intensity: 900_000 });
    for (x, y) in [(2, 1), (1, 2), (2, 2)] {
        assert_eq!(
            grid.grid[y][x],
            EmotionCell { alive: true, emotion: Some(EmotionType::Joy), intensity: 300_000 }
        );
    }
    let stats = grid.update();
    assert_eq!(stats.emotion_spreads, 4);
    // 0.81 of its own and three tenths of 0.9 from its three neighbours, cut off at one
    assert_eq!(grid.grid[1][1].intensity, 810_000 + 270_000 - 80_000);
    // 0.27 of its own, and three tenths of 0.9 + 0.3 + 0.3
    assert_eq!(grid.grid[2][2].intensity, 270_000 + 450_000);
    for _ in 0..12 {
        grid.update();
    }
    for (x, y) in [(1, 1), (2, 1), (1, 2), (2, 2)] {
        assert!(grid.grid[y][x].alive);
        assert_eq!(grid.grid[y][x].intensity, UNIT);
    }
}

#[test]
fn joy_in_a_cross_dies_of_crowding() {
    let mut grid = EmotionGrid::new(5, 5, CELL);
    grid.add_emotion_source(EmotionType::Joy, world(2), world(2));
    for (x, y) in [(2, 1), (1, 2), (3, 2), (2, 3)] {
        grid.grid[y][x].alive = true;
    }
    assert_eq!(grid.count_neighbors(2, 2), 4);
    let stats = grid.update();
    assert_eq!(stats.deaths, 1);
    assert_eq!(stats.births, 4);
    assert_eq!(stats.alive_count, 8);
    assert_eq!(stats.emotion_spreads, 8);
    assert_eq!(stats.emotion_count, 8);
    assert_eq!(
        grid.grid[2][2],
        EmotionCell { alive: false, emotion: Some(EmotionType::Joy), intensity: 900_000 }
    );
    for (x, y) in [(2, 1), (1, 2), (3, 2), (2, 3), (1, 1), (3, 1), (1, 3), (3, 3)] {
        assert_eq!(
            grid.grid[y][x],
            EmotionCell { alive: true, emotion: Some(EmotionType::Joy), intensity: 300_000 }
        );
    }
    assert_eq!(grid.get_stats().alive_count, 8);
    assert_eq!(grid.get_stats().emotion_count, 8);
    assert_eq!(grid.get_stats().deaths, 0);
}

#[test]
fn intensities_stay_within_bounds_over_many_ticks() {
    let mut rng = StdRng::seed_from_u64(11);
    let mut grid = EmotionGrid::new(16, 12, CELL);
    grid.randomize(&mut rng);
    for _ in 0..40 {
        let stats = grid.update();
        let mut alive = 0;
        for row in &grid.grid {
            for cell in row {
                assert!(cell.intensity <= UNIT);
                if cell.alive {
                    alive += 1;
                }
            }
        }
        assert_eq!(stats.alive_count, alive);
    }
    assert_eq!(grid.update_count, 40);
}

#[test]
fn clear_resets_cells_and_counter() {
    let mut grid = EmotionGrid::new(4, 4, CELL);
    grid.add_emotion_source(EmotionType::Joy, world(1), world(1));
    grid.update();
    grid.clear();
    assert_eq!(grid.update_count, 0);
    assert_eq!(alive_cells(&grid), 0);
    for row in &grid.grid {
        for cell in row {
            assert_eq!(*cell, EmotionCell::new());
        }
    }
    assert_eq!((grid.width, grid.height, grid.grid.len(), grid.grid[0].len()), (4, 4, 4, 4));
}

#[test]
fn repopulate_sets_flags_then_places_sources_in_order() {
    let mut grid = EmotionGrid::new(3, 2, CELL);
    grid.add_emotion_source(EmotionType::Fear, world(0), world(0));
    grid.update();
    let alive = vec![vec![true, false, true], vec![false, true]];
    let sources = vec![
        (EmotionType::Joy, world(1), world(1)),
        (EmotionType::Anger, world(9), world(0)),
        (EmotionType::Love, world(1), world(1)),
    ];
    grid.repopulate(&alive, &sources);
    assert_eq!(grid.update_count, 0);
    let plain = |alive| EmotionCell { alive, emotion: None, intensity: 0 };
    assert_eq!(grid.grid[0], vec![plain(true), plain(false), plain(true)]);
    assert_eq!(
        grid.grid[1],
        vec![plain(false), EmotionCell::new_with_emotion(EmotionType::Love, UNIT), plain(false)]
    );
}

#[test]
fn randomize_is_reproducible_for_a_seed() {
    let mut first = EmotionGrid::new(30, 20, CELL);
    let mut second = EmotionGrid::new(30, 20, CELL);
    second.add_emotion_source(EmotionType::Joy, world(3), world(3));
    second.update();
    first.randomize(&mut StdRng::seed_from_u64(2024));
    second.randomize(&mut StdRng::seed_from_u64(2024));
    assert_eq!(alive_cells(&first), alive_cells(&second));
    assert_eq!(first.grid, second.grid);
    assert_eq!(first.get_stats(), second.get_stats());
    assert_eq!(second.update_count, 0);
    let mut third = EmotionGrid::new(30, 20, CELL);
    third.randomize(&mut StdRng::seed_from_u64(2025));
    assert_ne!(first.grid, third.grid);
}

#[test]
fn randomize_places_at_most_ten_sources_at_full_intensity() {
    let mut rng = StdRng::seed_from_u64(5);
    for _ in 0..20 {
        let mut grid = EmotionGrid::new(25, 25, CELL);
        grid.randomize(&mut rng);
        let mut sources = 0;
        for row in &grid.grid {
            for cell in row {
                match cell.emotion {
                    Some(_) => {
                        assert!(cell.alive);
                        assert_eq!(cell.intensity, UNIT);
                        sources += 1;
                    }
                    None => assert_eq!(cell.intensity, 0),
                }
            }
        }
        assert!(1 <= sources && sources <= 10);
        let alive = alive_cells(&grid);
        // three cells in ten are alive, give or take
        assert!(100 < alive && alive < 300);
    }
}

#[test]
fn tunnel_copies_a_strong_emotion_at_eight_tenths() {
    let mut grid = EmotionGrid::new(4, 4, CELL);
    grid.grid[0][0] = EmotionCell::new_with_emotion(EmotionType::Fear, 900_000);
    grid.grid[1][1] = EmotionCell::new_with_emotion(EmotionType::Joy, 700_000);
    assert!(!grid.tunnel(1, 1, 3, 3));
    assert_eq!(grid.grid[3][3], EmotionCell::new());
    assert!(!grid.tunnel(2, 2, 3, 3));
    assert!(grid.tunnel(0, 0, 3, 2));
    assert_eq!(
        grid.grid[2][3],
        EmotionCell { alive: true, emotion: Some(EmotionType::Fear), intensity: 720_000 }
    );
    assert_eq!(grid.grid[0][0].intensity, 900_000);
    assert!(grid.tunnel(2 + 1, 2, 0, 0));
    assert_eq!(grid.grid[0][0].intensity, 576_000);
}

#[test]
fn quantum_tunneling_needs_a_strong_emotion() {
    let mut rng = StdRng::seed_from_u64(3);
    let mut grid = EmotionGrid::new(6, 6, CELL);
    let before = grid.grid.clone();
    assert!(!grid.perform_quantum_tunneling(&mut rng));
    assert_eq!(grid.grid, before);
    let mut single = EmotionGrid::new(1, 1, CELL);
    single.grid[0][0] = EmotionCell::new_with_emotion(EmotionType::Envy, UNIT);
    assert!(single.perform_quantum_tunneling(&mut rng));
    assert_eq!(
        single.grid[0][0],
        EmotionCell { alive: true, emotion: Some(EmotionType::Envy), intensity: 800_000 }
    );
    assert!(single.perform_quantum_tunneling(&mut rng));
    assert!(!single.perform_quantum_tunneling(&mut rng));
    assert_eq!(single.grid[0][0].intensity, 640_000);
}

#[test]
fn quantum_tunneling_is_certain_where_every_cell_is_strong() {
    let mut rng = StdRng::seed_from_u64(17);
    for round in 0..50 {
        let mut grid = EmotionGrid::new(4, 3, CELL);
        for row in grid.grid.iter_mut() {
            for cell in row.iter_mut() {
                *cell = EmotionCell::new_with_emotion(EmotionType::Anger, 900_000);
            }
        }
        assert!(grid.perform_quantum_tunneling(&mut rng), "round {}", round);
        let weakened = grid.grid.iter().flatten().filter(|c| c.intensity == 720_000).count();
        assert_eq!(weakened, 1);
        let mut dead = EmotionGrid::new(4, 3, CELL);
        dead.grid[1][2] = EmotionCell::new_with_emotion(EmotionType::Anger, 700_000);
        let before = dead.grid.clone();
        assert!(!dead.perform_quantum_tunneling(&mut rng));
        assert_eq!(dead.grid, before);
    }
}
