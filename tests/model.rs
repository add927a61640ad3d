use kobold_mayhem::actor::{Actor, Brain, MonsterBrain, MonsterState};
use kobold_mayhem::generator::{ca_step, floor_cells, generate, GenerateError};
use kobold_mayhem::path::check_path;
use kobold_mayhem::rng::RandomSource;
use kobold_mayhem::util::{Color, Direction, Point};
use kobold_mayhem::world::{Cell, CellType, PlayerState, World};

#[test]
fn translate_and_wrap() {
    let mut p = Point::new(0, 0);
    p.translate(&Direction::East);
    assert_eq!(p, Point::new(1, 0));
    p.translate(&Direction::South);
    assert_eq!(p, Point::new(1, 1));
    p.translate(&Direction::North);
    p.translate(&Direction::North);
    assert_eq!(p, Point::new(1, usize::MAX));
    let world = World::new(4, 4);
    assert!(!world.is_valid(&p));
}

#[test]
fn distance_and_adjacency() {
    let a = Point::new(2, 3);
    assert_eq!(a.distance_to(&Point::new(5, 1)), 5);
    assert_eq!(Point::new(0, 0).distance_to(&Point::new(usize::MAX, usize::MAX)), usize::MAX);
    assert!(a.is_adjacent_to(&Point::new(2, 2)));
    assert!(a.is_adjacent_to(&Point::new(1, 3)));
    assert!(!a.is_adjacent_to(&Point::new(3, 4)));
    assert!(!a.is_adjacent_to(&a));
    // no wrapping round the coordinate range
    assert!(!Point::new(0, 0).is_adjacent_to(&Point::new(usize::MAX, 0)));
    assert!(!Point::new(usize::MAX, 0).is_adjacent_to(&Point::new(0, 0)));
    assert!(Point::new(usize::MAX, 0).is_adjacent_to(&Point::new(usize::MAX - 1, 0)));
}

#[test]
fn random_source_script_then_generator() {
    let mut r = RandomSource::scripted(vec![7, 3], 0);
    assert_eq!(r.next_u64(), 7);
    assert_eq!(r.next_u64(), 3);
    let expected = 1442695040888963407u64 >> 32;
    assert_eq!(r.next_u64(), expected);
    let mut d = RandomSource::scripted(vec![0, 1, 2, 3], 0);
    assert_eq!(Direction::random_direction(&mut d), Direction::North);
    assert_eq!(Direction::random_direction(&mut d), Direction::South);
    assert_eq!(Direction::random_direction(&mut d), Direction::East);
    assert_eq!(Direction::random_direction(&mut d), Direction::West);
}

#[test]
fn actor_variants() {
    let p = Actor::player();
    assert_eq!((p.glyph, p.name.as_str(), p.health, p.is_solid, p.is_player), ('@', "Player", 10, true, true));
    assert_eq!(p.color, Color::red());
    let k = Actor::kobold();
    assert_eq!((k.glyph, k.name.as_str(), k.health, k.is_solid), ('k', "Kobold", 2, true));
    assert_eq!(k.color, Color::green());
    let g = Actor::kobold_generator();
    assert_eq!((g.glyph, g.name.as_str(), g.health), ('G', "Kobold generator", 5));
    assert_eq!(g.color, Color::purple());
    let c = Actor::ammo_crate();
    assert_eq!((c.glyph, c.name.as_str(), c.health, c.is_solid), ('*', "Ammo crate", 1, false));
    assert_eq!(c.color, Color::light_blue());
    assert_eq!(Color::purple(), Color::new(160, 32, 240));
}

#[test]
fn damage_and_death() {
    let mut k = Actor::kobold();
    k.damaged(1);
    assert!(k.is_alive());
    k.damaged(1);
    assert!(!k.is_alive());
    assert_eq!(k.health, 0);
}

#[test]
fn think_rules() {
    let mut rng = RandomSource::scripted(vec![1, 4, 11], 0);
    let g = Brain::Generator(kobold_mayhem::actor::GeneratorBrain::new());
    assert!(g.think(&mut rng));
    assert!(!g.think(&mut rng));
    assert!(g.think(&mut rng));
    let n = Brain::Inert(kobold_mayhem::actor::NoBrain::new());
    assert!(!n.think(&mut rng));
    let m = Brain::Monster(MonsterBrain::new());
    assert!(m.think(&mut rng));
}

#[test]
fn walkable_and_bumpable() {
    let mut world = World::new(4, 1);
    world.add_actor(Actor::ammo_crate(), Point::new(1, 0));
    world.add_actor(Actor::kobold(), Point::new(2, 0));
    world.grid[0][3].cell_type = CellType::Wall;
    assert!(world.is_walkable(&Point::new(1, 0)));
    assert!(!world.is_walkable(&Point::new(2, 0)));
    assert!(!world.is_walkable(&Point::new(3, 0)));
    assert!(!world.is_walkable(&Point::new(4, 0)));
    assert!(world.is_bumpable(&Point::new(2, 0), false));
    assert!(!world.is_bumpable(&Point::new(2, 0), true));
    assert!(world.is_bumpable(&Point::new(0, 0), true));
    assert!(!world.is_bumpable(&Point::new(3, 0), false));
    assert_eq!(world.get_cell(3, 0).get_glyph(), '#');
    assert_eq!(world.get_cell(0, 0).get_glyph(), '.');
    assert_eq!(Cell::new(CellType::Floor).actor, None);
}

#[test]
fn ammo_and_kills() {
    let mut world = World::new(2, 2);
    assert!(!world.has_ammo());
    world.increase_ammo(3);
    world.decrease_ammo();
    assert_eq!(world.player_state.ammo, 2);
    world.increase_kills();
    assert_eq!(world.player_state.kills, 1);
    world.player_state.toggle_aiming();
    assert!(world.player_state.is_aiming);
    world.player_state.reset();
    assert_eq!(world.player_state, PlayerState { ammo: 0, kills: 0, is_aiming: false });
}

#[test]
fn cleanup_keeps_only_the_player() {
    let mut world = World::new(5, 5);
    world.add_actor(Actor::kobold(), Point::new(3, 3));
    world.actors[0].health = 0;
    assert!(world.is_game_over());
    world.player_state.ammo = 4;
    world.cleanup();
    assert!(!world.is_game_over());
    assert_eq!(world.actors.len(), 1);
    assert_eq!(world.actors[0].health, 10);
    assert_eq!(world.grid[3][3].actor, None);
    assert_eq!(world.grid[0][0].actor, Some(0));
    assert_eq!(world.player_state.ammo, 0);
    assert_eq!(world.get_player_position(), Point::new(0, 0));
}

#[test]
fn ca_step_rules() {
    // a 5x5 grid: walls on the border, open inside
    let mut g = vec![vec![1u8; 5]; 5];
    for y in 1..4 {
        for x in 1..4 {
            g[y][x] = 0;
        }
    }
    let n = ca_step(&g, 5, 5);
    // (1,1): r1 = 5 walls in its 3x3 window, so it becomes wall
    assert_eq!(n[1][1], 1);
    // centre (2,2): r1 = 0, and r2 = 12 (the 16 border cells less the 4 corners)
    assert_eq!(n[2][2], 0);
    // border stays wall
    assert_eq!(n[0][2], 1);
    // an open 7x7 interior: the centre has no wall within two steps, so it fills in
    let mut big = vec![vec![1u8; 9]; 9];
    for y in 1..8 {
        for x in 1..8 {
            big[y][x] = 0;
        }
    }
    let m = ca_step(&big, 9, 9);
    assert_eq!(m[4][4], 1);
    assert_eq!(m[3][4], 1);
    assert_eq!(m[2][4], 0);
}

#[test]
fn floor_cells_row_by_row() {
    let g = vec![vec![1u8, 0, 1], vec![0, 1, 0]];
    let f = floor_cells(&g, 3, 2);
    assert_eq!(f, vec![Point::new(1, 0), Point::new(0, 1), Point::new(2, 1)]);
}

#[test]
fn generate_cave() {
    let mut world = World::new(80, 50);
    let mut rng = RandomSource::new(12345);
    assert_eq!(generate(&mut world, &mut rng), Ok(()));
    assert_eq!(world.actors.len(), 21);
    for x in 0..80 {
        assert_eq!(world.grid[0][x].cell_type, CellType::Wall);
        assert_eq!(world.grid[49][x].cell_type, CellType::Wall);
    }
    for y in 0..50 {
        assert_eq!(world.grid[y][0].cell_type, CellType::Wall);
        assert_eq!(world.grid[y][79].cell_type, CellType::Wall);
    }
    for (k, a) in world.actors.iter().enumerate() {
        let c = world.grid[a.position.y][a.position.x];
        assert_eq!(c.cell_type, CellType::Floor);
        assert_eq!(c.actor, Some(k));
    }
    assert_eq!(world.actors[1].name, "Kobold");
    assert_eq!(world.actors[11].name, "Kobold generator");
}

#[test]
fn generate_too_dense() {
    let mut world = World::new(4, 4);
    let mut rng = RandomSource::new(1);
    assert_eq!(generate(&mut world, &mut rng), Err(GenerateError::MapTooDense));
    assert_eq!(world.actors.len(), 1);
    assert_eq!(world.grid[1][1].cell_type, CellType::Floor);
}

#[test]
fn path_checks() {
    let mut world = World::new(4, 3);
    world.grid[1][1].cell_type = CellType::Wall;
    let from = Point::new(0, 0);
    let to = Point::new(2, 0);
    assert!(check_path(&world, &from, &to, &vec![Point::new(1, 0), Point::new(2, 0)]));
    assert!(!check_path(&world, &from, &to, &vec![]));
    assert!(!check_path(&world, &from, &to, &vec![Point::new(2, 0)]));
    assert!(!check_path(&world, &from, &Point::new(1, 2), &vec![Point::new(0, 1), Point::new(1, 1), Point::new(1, 2)]));
    assert!(check_path(&world, &from, &Point::new(1, 2), &vec![Point::new(0, 1), Point::new(0, 2), Point::new(1, 2)]));
}

#[test]
fn monster_follows_given_path() {
    let world = World::new(10, 10);
    let mut brain = MonsterBrain::new();
    let from = Point::new(9, 9);
    let player = world.get_player_position();
    let path: Vec<Point> = (0..9).rev().map(|x| Point::new(x, 9)).chain((0..9).rev().map(|y| Point::new(0, y))).collect();
    brain.take_path(Some(path.clone()), &world, &from, &player);
    assert_eq!(brain.path, path);
    assert_eq!(brain.stuck_on_path_count, 0);
    brain.take_path(Some(vec![Point::new(5, 5)]), &world, &from, &player);
    assert_eq!(brain.stuck_on_path_count, 1);
    brain.take_path(None, &world, &from, &player);
    assert_eq!(brain.stuck_on_path_count, 2);
    assert_eq!(brain.state, MonsterState::Passive);
    assert!(brain.has_path());
}

#[test]
fn generation_depends_on_the_draws_alone() {
    let mut a = World::new(30, 20);
    let mut b = World::new(30, 20);
    let ra = generate(&mut a, &mut RandomSource::new(99));
    let rb = generate(&mut b, &mut RandomSource::new(99));
    assert_eq!(ra, rb);
    assert_eq!(a.grid, b.grid);
    let pa: Vec<Point> = a.actors.iter().map(|x| x.position).collect();
    let pb: Vec<Point> = b.actors.iter().map(|x| x.position).collect();
    assert_eq!(pa, pb);
}
