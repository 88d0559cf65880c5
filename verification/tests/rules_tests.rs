use terrain_destruction::cell::Cell;
use terrain_destruction::config::{
    read_cell_size, read_delta, read_noisetype, read_screen_height, read_screen_width, read_seed,
    read_terrain_height, read_terrain_width, update_constants, Config, MAX_EXTENT, MIN_DELTA,
    MIN_HEIGHT, MIN_SIZE_CELL, MIN_WIDTH,
};
use terrain_destruction::effect::{
    mirror_in_x, mirror_in_y, normalize, turn, Effect, EffectType, FULL_TURN, HALF_TURN,
    QUARTER_TURN,
};
use terrain_destruction::materials::Material;
use terrain_destruction::noisegenerator::NoiseGenerator;
use terrain_destruction::noisetypes::NoiseType;
use terrain_destruction::quadtree::{QuadTreeItem, Rect};
use terrain_destruction::simulation::{
    advance, deflect, in_reach, is_alive, reach_of, scan_candidates, spawn_children,
    DamageRequest, LIFETIME, SPAWN_CAP,
};

fn effect_at(kind: EffectType, x: i64, y: i64, direction: u32) -> Effect {
    Effect { effect_type: kind, position: (x, y), direction, started_at: 0, spawned: false }
}

#[test]
fn hit_lowers_durability_by_the_amount() {
    let mut cell = Cell { material: Material::Rock, durability: 8 };
    cell.damage(5, false);
    assert_eq!(cell, Cell { material: Material::Rock, durability: 3 });
}

#[test]
fn hit_that_takes_all_that_is_left_empties_the_cell() {
    let mut cell = Cell { material: Material::Rock, durability: 3 };
    cell.damage(5, false);
    assert_eq!(cell, Cell { material: Material::Air, durability: 0 });
    let mut exact = Cell { material: Material::Grass, durability: 5 };
    exact.damage(5, false);
    assert_eq!(exact, Cell { material: Material::Air, durability: 0 });
}

#[test]
fn hit_that_ignores_durability_empties_the_cell() {
    let mut cell = Cell { material: Material::Rock, durability: 8 };
    cell.damage(0, true);
    assert_eq!(cell, Cell { material: Material::Air, durability: 0 });
}

#[test]
fn hit_on_an_empty_cell_changes_nothing() {
    let mut cell = Cell { material: Material::Air, durability: 0 };
    for _ in 0..5 {
        cell.damage(10, true);
        assert_eq!(cell, Cell { material: Material::Air, durability: 0 });
        cell.damage(3, false);
        assert_eq!(cell, Cell { material: Material::Air, durability: 0 });
    }
}

#[test]
fn hit_of_nothing_changes_nothing() {
    let mut cell = Cell { material: Material::Grass, durability: 1 };
    cell.damage(0, false);
    assert_eq!(cell, Cell { material: Material::Grass, durability: 1 });
}

#[test]
fn default_arguments_give_the_default_configuration() {
    let config = update_constants(700, 500, 15, 5000, -1, NoiseType::Perlin);
    assert_eq!(read_screen_width(&config), 700_000);
    assert_eq!(read_screen_height(&config), 500_000);
    assert_eq!(read_terrain_width(&config), 140);
    assert_eq!(read_terrain_height(&config), 100);
    assert_eq!(read_delta(&config), 66_666);
    assert_eq!(read_cell_size(&config), 5000);
    assert_eq!(read_seed(&config), -1);
    assert_eq!(read_noisetype(&config), NoiseType::Perlin);
    assert!(config.is_well_formed());
}

#[test]
fn values_below_their_minimum_are_raised_to_it() {
    let config = update_constants(10, 20, 1, 100, 99, NoiseType::Simplex);
    let least = update_constants(MIN_WIDTH, MIN_HEIGHT, MIN_DELTA, MIN_SIZE_CELL, 99, NoiseType::Simplex);
    assert_eq!(config, least);
    assert_eq!(config.screen_width, 500_000);
    assert_eq!(config.screen_height, 300_000);
    assert_eq!(config.terrain_width, 100);
    assert_eq!(config.terrain_height, 60);
    assert_eq!(config.fixed_delta, 66_666);
    assert_eq!(config.cell_size, 5000);
    assert_eq!(config.seed, 99);
    assert_eq!(config.noise_type, NoiseType::Simplex);
}

#[test]
fn screen_is_cut_down_to_whole_cells() {
    let config = update_constants(703, 505, 60, 7000, 1, NoiseType::Fbm);
    assert_eq!(config.terrain_width, 100);
    assert_eq!(config.terrain_height, 72);
    assert_eq!(config.screen_width, 700_000);
    assert_eq!(config.screen_height, 504_000);
    assert_eq!(config.fixed_delta, 16_666);
    assert!(config.is_well_formed());
}

#[test]
fn greatest_arguments_give_a_well_formed_configuration() {
    let config = update_constants(u32::MAX, u32::MAX, u32::MAX, u32::MAX, i64::MAX, NoiseType::Perlin);
    assert!(config.is_well_formed());
    assert_eq!(config.terrain_width, 1000);
    assert_eq!(config.screen_width, 1000 * (u32::MAX as i64));
    assert_eq!(config.fixed_delta, 0);
}

#[test]
fn configuration_that_does_not_add_up_is_not_well_formed() {
    let good = Config {
        screen_width: 100_000,
        screen_height: 50_000,
        fixed_delta: 1000,
        terrain_width: 10,
        terrain_height: 5,
        cell_size: 10_000,
        seed: 0,
        noise_type: NoiseType::Perlin,
    };
    assert!(good.is_well_formed());
    assert!(!Config { screen_width: 100_001, ..good }.is_well_formed());
    assert!(!Config { terrain_height: 6, ..good }.is_well_formed());
    assert!(!Config { cell_size: 0, screen_width: 0, screen_height: 0, ..good }.is_well_formed());
    assert!(!Config { cell_size: -10_000, screen_width: -100_000, screen_height: -50_000, ..good }
        .is_well_formed());
    assert!(!Config { cell_size: MAX_EXTENT + 1, terrain_width: 0, terrain_height: 0,
        screen_width: 0, screen_height: 0, ..good }.is_well_formed());
    assert!(!Config { terrain_width: usize::MAX, terrain_height: 1, cell_size: 1,
        screen_width: -1, screen_height: 1, ..good }.is_well_formed());
    assert!(Config { terrain_width: 0, terrain_height: 0, screen_width: 0, screen_height: 0, ..good }
        .is_well_formed());
}

#[test]
fn names_select_their_noise_types() {
    assert_eq!(NoiseType::from_name(&"perlin".to_string()), (NoiseType::Perlin, true));
    assert_eq!(NoiseType::from_name(&"fbm".to_string()), (NoiseType::Fbm, true));
    assert_eq!(NoiseType::from_name(&"simplex".to_string()), (NoiseType::Simplex, true));
}

#[test]
fn unknown_name_falls_back_to_the_first_noise_type() {
    for name in ["", "Perlin", "FBM", "simplex ", "worley", "fractal brownian motion"] {
        assert_eq!(NoiseType::from_name(&name.to_string()), (NoiseType::Perlin, false));
    }
}

#[test]
fn noise_types_have_their_names() {
    assert_eq!(NoiseType::Perlin.name(), "Perlin");
    assert_eq!(NoiseType::Fbm.name(), "Fractal Brownian Motion");
    assert_eq!(NoiseType::Simplex.name(), "Simplex");
}

#[test]
fn new_generator_builds_every_source_from_the_seed() {
    let mut generator = NoiseGenerator::new(NoiseType::Fbm, 17);
    assert_eq!(generator.noise_type(), NoiseType::Fbm);
    assert_eq!(generator.active_seed(), 17);
    generator.set_noise_type(NoiseType::Perlin);
    assert_eq!(generator.active_seed(), 17);
    generator.set_noise_type(NoiseType::Simplex);
    assert_eq!(generator.active_seed(), 17);
}

#[test]
fn generate_rebuilds_the_source_in_use_only() {
    let mut generator = NoiseGenerator::new(NoiseType::Perlin, 1);
    generator.generate(2);
    assert_eq!(generator.active_seed(), 2);
    generator.set_noise_type(NoiseType::Fbm);
    assert_eq!(generator.active_seed(), 1);
    generator.generate(3);
    assert_eq!(generator.active_seed(), 3);
    generator.set_noise_type(NoiseType::Simplex);
    assert_eq!(generator.active_seed(), 1);
    generator.set_noise_type(NoiseType::Perlin);
    assert_eq!(generator.active_seed(), 2);
    generator.set_noise_type(NoiseType::Fbm);
    assert_eq!(generator.active_seed(), 3);
}

#[test]
fn switching_away_and_back_changes_nothing() {
    let mut generator = NoiseGenerator::new(NoiseType::Simplex, 11);
    generator.generate(12);
    let before = generator;
    generator.set_noise_type(NoiseType::Perlin);
    generator.set_noise_type(NoiseType::Fbm);
    generator.set_noise_type(NoiseType::Simplex);
    assert_eq!(generator, before);
}

#[test]
fn kinds_have_their_speed_and_damage() {
    assert_eq!(EffectType::Bubbles.speed(), 50);
    assert_eq!(EffectType::MoreBubbles.speed(), 50);
    assert_eq!(EffectType::Lightning.speed(), 200);
    assert_eq!(EffectType::Bubbles.damage(), 5);
    assert_eq!(EffectType::MoreBubbles.damage(), 5);
    assert_eq!(EffectType::Lightning.damage(), 10);
    assert!(!EffectType::Bubbles.ignores_durability());
    assert!(!EffectType::MoreBubbles.ignores_durability());
    assert!(EffectType::Lightning.ignores_durability());
}

#[test]
fn turns_have_their_steps() {
    assert_eq!(FULL_TURN, 6284);
    assert_eq!(HALF_TURN * 2, FULL_TURN);
    assert_eq!(QUARTER_TURN * 2, HALF_TURN);
}

#[test]
fn normalize_brings_headings_into_the_full_turn() {
    assert_eq!(normalize(0), 0);
    assert_eq!(normalize(6283), 6283);
    assert_eq!(normalize(6284), 0);
    assert_eq!(normalize(6285), 1);
    assert_eq!(normalize(3 * 6284 + 100), 100);
    assert_eq!(normalize(u32::MAX), u32::MAX % 6284);
}

#[test]
fn mirror_in_x_is_half_a_turn_minus_the_heading() {
    assert_eq!(mirror_in_x(0), HALF_TURN);
    assert_eq!(mirror_in_x(QUARTER_TURN), QUARTER_TURN);
    assert_eq!(mirror_in_x(HALF_TURN), 0);
    assert_eq!(mirror_in_x(1000), 2142);
    assert_eq!(mirror_in_x(4000), 5426);
    assert_eq!(mirror_in_x(3 * QUARTER_TURN), 3 * QUARTER_TURN);
    assert_eq!(mirror_in_x(FULL_TURN + 1000), 2142);
    for heading in [0u32, 1, 1570, 3141, 3142, 3143, 6283] {
        assert_eq!(mirror_in_x(mirror_in_x(heading)), heading);
    }
}

#[test]
fn mirror_in_y_negates_the_heading() {
    assert_eq!(mirror_in_y(0), 0);
    assert_eq!(mirror_in_y(QUARTER_TURN), 3 * QUARTER_TURN);
    assert_eq!(mirror_in_y(HALF_TURN), HALF_TURN);
    assert_eq!(mirror_in_y(1), 6283);
    assert_eq!(mirror_in_y(FULL_TURN + 1), 6283);
    for heading in [0u32, 1, 1570, 3141, 3142, 3143, 6283] {
        assert_eq!(mirror_in_y(mirror_in_y(heading)), heading);
    }
}

#[test]
fn turn_adds_and_takes_away() {
    assert_eq!(turn(100, 50, 0), 150);
    assert_eq!(turn(100, 0, 50), 50);
    assert_eq!(turn(100, 0, 300), 6084);
    assert_eq!(turn(6200, 300, 0), 216);
    assert_eq!(turn(6284 + 100, 6283, 6283), 100);
    assert_eq!(turn(0, 0, 0), 0);
}

#[test]
fn effect_within_the_walls_keeps_its_heading() {
    let mut effect = effect_at(EffectType::Bubbles, 50, 50, 1234);
    effect.bounce(100, 100);
    assert_eq!(effect, effect_at(EffectType::Bubbles, 50, 50, 1234));
    let mut unusual = effect_at(EffectType::Bubbles, 50, 50, 7000);
    unusual.bounce(100, 100);
    assert_eq!(unusual.direction, 7000);
}

#[test]
fn effect_at_the_left_wall_moving_left_is_turned_back() {
    let mut leftwards = effect_at(EffectType::Bubbles, 0, 50, HALF_TURN);
    leftwards.bounce(100, 100);
    assert_eq!(leftwards.direction, 0);
    let mut rightwards = effect_at(EffectType::Bubbles, 0, 50, 0);
    rightwards.bounce(100, 100);
    assert_eq!(rightwards.direction, HALF_TURN);
    let mut upwards = effect_at(EffectType::Bubbles, 0, 50, QUARTER_TURN);
    upwards.bounce(100, 100);
    assert_eq!(upwards.direction, QUARTER_TURN);
    assert_eq!(upwards.position, (0, 50));
}

#[test]
fn effect_at_the_walls_in_y_has_its_heading_negated() {
    let mut top = effect_at(EffectType::Lightning, 50, 0, 1000);
    top.bounce(100, 100);
    assert_eq!(top.direction, 5284);
    let mut bottom = effect_at(EffectType::Lightning, 50, 100, 5284);
    bottom.bounce(100, 100);
    assert_eq!(bottom.direction, 1000);
    let mut beyond = effect_at(EffectType::Lightning, 50, 250, 1);
    beyond.bounce(100, 100);
    assert_eq!(beyond.direction, 6283);
}

#[test]
fn effect_in_a_corner_is_mirrored_both_ways() {
    let mut effect = effect_at(EffectType::MoreBubbles, -5, 120, 1000);
    effect.bounce(100, 100);
    // Half a turn minus 1000 is 2142; negated that is 4142.
    assert_eq!(effect.direction, 4142);
    assert_eq!(effect.effect_type, EffectType::MoreBubbles);
    assert_eq!(effect.position, (-5, 120));
    assert_eq!(effect.started_at, 0);
    assert!(!effect.spawned);
}

#[test]
fn advance_moves_by_speed_times_time() {
    assert_eq!(advance(EffectType::Lightning, (0, 0), (1000, 0), 66_666), (13_333, 0));
    assert_eq!(advance(EffectType::Lightning, (0, 0), (0, 1000), 66_666), (0, 13_333));
    assert_eq!(advance(EffectType::Bubbles, (100, 200), (1000, 0), 66_666), (3433, 200));
    assert_eq!(advance(EffectType::MoreBubbles, (100, 200), (600, -800), 1_000_000), (30_100, -39_800));
    assert_eq!(advance(EffectType::Bubbles, (5, 5), (0, 0), 66_666), (5, 5));
    assert_eq!(advance(EffectType::Bubbles, (5, 5), (1000, 1000), 0), (5, 5));
}

#[test]
fn advance_rounds_towards_zero_both_ways() {
    // 50 * 66666 * 707 / 1000000 = 2356.6...
    assert_eq!(advance(EffectType::Bubbles, (0, 0), (707, -707), 66_666), (2356, -2356));
    // 50 * 1 * 1000 / 1000000 = 0.05
    assert_eq!(advance(EffectType::Bubbles, (0, 0), (1000, -1000), 1), (0, 0));
    assert_eq!(advance(EffectType::Bubbles, (0, 0), (-1000, -1000), 39), (-1, -1));
}

#[test]
fn advance_stops_at_the_ends_of_the_range() {
    assert_eq!(
        advance(EffectType::Lightning, (i64::MAX - 5, i64::MIN + 5), (1000, -1000), 1_000_000),
        (i64::MAX, i64::MIN)
    );
    assert_eq!(
        advance(EffectType::Lightning, (0, 0), (i32::MAX, i32::MIN), u32::MAX),
        (1_844_674_406_082_464, -1_844_674_406_941_458)
    );
}

#[test]
fn reach_is_the_square_around_the_position() {
    assert_eq!(reach_of((55_000, 45_000), 10_000), Rect { x: 45_000, y: 35_000, w: 20_000, h: 20_000 });
    assert_eq!(reach_of((0, 0), 5), Rect { x: -5, y: -5, w: 10, h: 10 });
    assert_eq!(reach_of((i64::MIN + 2, 0), 5), Rect { x: i64::MIN, y: -5, w: 10, h: 10 });
}

#[test]
fn distance_is_measured_along_the_axes() {
    assert!(in_reach((0, 0), 5, 0, 5));
    assert!(in_reach((0, 0), 0, -5, 5));
    assert!(in_reach((0, 0), 2, 3, 5));
    // Within five as the crow flies, but six along the axes.
    assert!(!in_reach((0, 0), 3, 3, 5));
    assert!(!in_reach((0, 0), 6, 0, 5));
    assert!(in_reach((10, 10), 10, 10, 0));
    assert!(!in_reach((10, 10), 10, 11, 0));
    assert!(!in_reach((i64::MIN, i64::MIN), i64::MAX, i64::MAX, i64::MAX));
    assert!(!in_reach((0, 0), 0, 0, -1));
}

#[test]
fn effect_lives_until_its_age_reaches_the_lifetime() {
    assert_eq!(LIFETIME, 3000);
    let effect = Effect { started_at: 1000, ..effect_at(EffectType::Bubbles, 0, 0, 0) };
    assert!(is_alive(&effect, 1000));
    assert!(is_alive(&effect, 3999));
    assert!(!is_alive(&effect, 4000));
    assert!(!is_alive(&effect, 4001));
    assert!(!is_alive(&effect, u64::MAX));
    // Before its beginning an effect has no age.
    assert!(is_alive(&effect, 0));
}

fn column_of(cells: &[(Material, u32)]) -> Vec<Cell> {
    cells.iter().map(|&(material, durability)| Cell { material, durability }).collect()
}

#[test]
fn scan_makes_a_demand_on_every_cell_it_wears_down() {
    let terrain = vec![
        column_of(&[(Material::Grass, 1), (Material::Air, 0)]),
        column_of(&[(Material::Grass, 5), (Material::Grass, 1)]),
    ];
    let candidates = vec![
        QuadTreeItem { x: 5, y: 5, tx: 0, ty: 0 },
        QuadTreeItem { x: 5, y: 15, tx: 0, ty: 1 },
        QuadTreeItem { x: 15, y: 5, tx: 1, ty: 0 },
        QuadTreeItem { x: 15, y: 15, tx: 1, ty: 1 },
    ];
    let (requests, blocked) = scan_candidates(&terrain, &candidates, (10, 10), 10, EffectType::Bubbles);
    assert!(!blocked);
    assert_eq!(
        requests,
        vec![
            DamageRequest { tx: 0, ty: 0, amount: 5, ignore_durability: false },
            DamageRequest { tx: 1, ty: 0, amount: 5, ignore_durability: false },
            DamageRequest { tx: 1, ty: 1, amount: 5, ignore_durability: false },
        ]
    );
}

#[test]
fn scan_stops_at_the_first_cell_that_withstands() {
    let terrain = vec![
        column_of(&[(Material::Grass, 1), (Material::Rock, 8)]),
        column_of(&[(Material::Rock, 6), (Material::Grass, 1)]),
    ];
    let candidates = vec![
        QuadTreeItem { x: 5, y: 5, tx: 0, ty: 0 },
        QuadTreeItem { x: 5, y: 15, tx: 0, ty: 1 },
        QuadTreeItem { x: 15, y: 5, tx: 1, ty: 0 },
        QuadTreeItem { x: 15, y: 15, tx: 1, ty: 1 },
    ];
    let (requests, blocked) = scan_candidates(&terrain, &candidates, (10, 10), 10, EffectType::MoreBubbles);
    assert!(blocked);
    assert_eq!(
        requests,
        vec![
            DamageRequest { tx: 0, ty: 0, amount: 5, ignore_durability: false },
            DamageRequest { tx: 0, ty: 1, amount: 5, ignore_durability: false },
        ]
    );
}

#[test]
fn nothing_withstands_a_bolt() {
    let terrain = vec![column_of(&[(Material::Rock, 8), (Material::Rock, 4000)])];
    let candidates = vec![
        QuadTreeItem { x: 5, y: 5, tx: 0, ty: 0 },
        QuadTreeItem { x: 5, y: 15, tx: 0, ty: 1 },
    ];
    let (requests, blocked) = scan_candidates(&terrain, &candidates, (5, 10), 10, EffectType::Lightning);
    assert!(!blocked);
    assert_eq!(
        requests,
        vec![
            DamageRequest { tx: 0, ty: 0, amount: 10, ignore_durability: true },
            DamageRequest { tx: 0, ty: 1, amount: 10, ignore_durability: true },
        ]
    );
}

#[test]
fn scan_passes_over_what_is_far_empty_or_not_of_the_grid() {
    let terrain = vec![column_of(&[(Material::Rock, 8), (Material::Air, 0)])];
    let candidates = vec![
        QuadTreeItem { x: 100, y: 100, tx: 0, ty: 0 },
        QuadTreeItem { x: 5, y: 15, tx: 0, ty: 1 },
        QuadTreeItem { x: 5, y: 5, tx: 1, ty: 0 },
        QuadTreeItem { x: 5, y: 5, tx: 0, ty: 2 },
        QuadTreeItem { x: 8, y: 8, tx: 0, ty: 0 },
    ];
    let (requests, blocked) = scan_candidates(&terrain, &candidates, (5, 5), 5, EffectType::Bubbles);
    assert!(!blocked);
    assert_eq!(requests, Vec::<DamageRequest>::new());
    let (requests, blocked) = scan_candidates(&terrain, &candidates, (5, 5), 6, EffectType::Bubbles);
    assert!(blocked);
    assert_eq!(requests, vec![DamageRequest { tx: 0, ty: 0, amount: 5, ignore_durability: false }]);
    let (requests, blocked) = scan_candidates(&terrain, &Vec::new(), (5, 5), 6, EffectType::Bubbles);
    assert!(!blocked);
    assert!(requests.is_empty());
}

#[test]
fn deflect_turns_by_the_draw() {
    // Half a turn and then 0 - 3142 steps more: no turn in all.
    assert_eq!(deflect(1000, 0), 1000);
    // Half a turn and nothing more.
    assert_eq!(deflect(1000, HALF_TURN), 4142);
    assert_eq!(deflect(1000, FULL_TURN - 1), 999);
    assert_eq!(deflect(6000, 1000), 716);
    assert_eq!(deflect(1000, FULL_TURN + 5), 1005);
}

#[test]
fn bubble_splits_in_two_that_turn_opposite_ways() {
    let mut parent = effect_at(EffectType::Bubbles, 10, 20, 1000);
    let children = spawn_children(&mut parent, true, &vec![450], 77, 0);
    assert!(parent.spawned);
    assert_eq!(
        children,
        vec![
            Effect { effect_type: EffectType::Bubbles, position: (10, 20), direction: 1150, started_at: 77, spawned: true },
            Effect { effect_type: EffectType::Bubbles, position: (10, 20), direction: 850, started_at: 77, spawned: true },
        ]
    );
    assert_eq!(parent, Effect { spawned: true, ..effect_at(EffectType::Bubbles, 10, 20, 1000) });
}

#[test]
fn offsets_are_brought_into_their_spread() {
    let mut parent = effect_at(EffectType::Bubbles, 0, 0, 100);
    let children = spawn_children(&mut parent, true, &vec![0], 0, 0);
    assert_eq!(children[0].direction, 6084);
    assert_eq!(children[1].direction, 400);
    let mut parent = effect_at(EffectType::Bubbles, 0, 0, 100);
    let children = spawn_children(&mut parent, true, &vec![600 + 599], 0, 0);
    assert_eq!(children[0].direction, 399);
    assert_eq!(children[1].direction, 6085);
    let mut parent = effect_at(EffectType::Bubbles, 0, 0, 100);
    let children = spawn_children(&mut parent, true, &Vec::new(), 0, 0);
    assert_eq!(children[0].direction, 100);
    assert_eq!(children[1].direction, 100);
}

#[test]
fn bubble_has_no_child_without_room_for_two() {
    for already in [9usize, 10, 11, usize::MAX] {
        let mut parent = effect_at(EffectType::Bubbles, 0, 0, 0);
        let children = spawn_children(&mut parent, true, &vec![1], 0, already);
        assert!(children.is_empty());
        assert!(parent.spawned);
    }
    let mut parent = effect_at(EffectType::Bubbles, 0, 0, 0);
    assert_eq!(spawn_children(&mut parent, true, &vec![1], 0, 8).len(), 2);
}

#[test]
fn failed_roll_leaves_the_parent_as_it_was() {
    for kind in [EffectType::Bubbles, EffectType::MoreBubbles, EffectType::Lightning] {
        let mut parent = effect_at(kind, 3, 4, 5);
        let children = spawn_children(&mut parent, false, &vec![1, 2, 3], 9, 0);
        assert!(children.is_empty());
        assert_eq!(parent, effect_at(kind, 3, 4, 5));
    }
}

#[test]
fn parent_has_children_once() {
    for kind in [EffectType::Bubbles, EffectType::MoreBubbles] {
        let mut parent = Effect { spawned: true, ..effect_at(kind, 3, 4, 5) };
        let children = spawn_children(&mut parent, true, &vec![1, 2, 3], 9, 0);
        assert!(children.is_empty());
        assert!(parent.spawned);
    }
}

#[test]
fn bolt_never_has_children() {
    let mut parent = effect_at(EffectType::Lightning, 3, 4, 5);
    let children = spawn_children(&mut parent, true, &vec![1, 2, 3], 9, 0);
    assert!(children.is_empty());
    assert_eq!(parent, effect_at(EffectType::Lightning, 3, 4, 5));
}

#[test]
fn bursting_bubble_fills_the_cap() {
    assert_eq!(SPAWN_CAP, 10);
    let offsets: Vec<u32> = vec![500, 0, 999, 1000, 600, 400, 500, 500, 500, 500];
    let mut parent = effect_at(EffectType::MoreBubbles, 7, 8, 2000);
    let children = spawn_children(&mut parent, true, &offsets, 5, 0);
    assert!(parent.spawned);
    let headings: Vec<u32> = children.iter().map(|c| c.direction).collect();
    assert_eq!(headings, vec![2000, 1500, 2499, 1500, 2100, 1900, 2000, 2000, 2000, 2000]);
    for child in children.iter() {
        assert_eq!(child.effect_type, EffectType::MoreBubbles);
        assert_eq!(child.position, (7, 8));
        assert_eq!(child.started_at, 5);
        assert!(child.spawned);
    }
    let mut parent = effect_at(EffectType::MoreBubbles, 7, 8, 2000);
    let children = spawn_children(&mut parent, true, &offsets, 5, 4);
    assert_eq!(children.len(), 6);
    let mut parent = effect_at(EffectType::MoreBubbles, 7, 8, 2000);
    let children = spawn_children(&mut parent, true, &offsets, 5, 9);
    assert_eq!(children.len(), 1);
    let mut parent = effect_at(EffectType::MoreBubbles, 7, 8, 2000);
    let children = spawn_children(&mut parent, true, &offsets, 5, 10);
    assert!(children.is_empty());
    assert!(parent.spawned);
    let mut parent = effect_at(EffectType::MoreBubbles, 7, 8, 2000);
    let children = spawn_children(&mut parent, true, &vec![700], 5, 7);
    let headings: Vec<u32> = children.iter().map(|c| c.direction).collect();
    assert_eq!(headings, vec![2200, 2000, 2000]);
}
