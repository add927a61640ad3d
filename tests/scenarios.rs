use std::collections::VecDeque;

use kobold_mayhem::actor::Actor;
use kobold_mayhem::input::KeyCode;
use kobold_mayhem::rng::RandomSource;
use kobold_mayhem::util::Point;
use kobold_mayhem::world::{CellType, World};

/// Shortest path over floor cells, four-connected, `from` excluded.
fn bfs(floor: &Vec<Vec<bool>>, from: Point, to: Point) -> Option<Vec<Point>> {
    let h = floor.len();
    let w = floor[0].len();
    let mut prev: Vec<Vec<Option<(usize, usize)>>> = vec![vec![None; w]; h];
    let mut seen = vec![vec![false; w]; h];
    let mut queue = VecDeque::new();
    seen[from.y][from.x] = true;
    queue.push_back((from.x, from.y));
    while let Some((x, y)) = queue.pop_front() {
        if (x, y) == (to.x, to.y) {
            let mut path = Vec::new();
            let mut cur = (x, y);
            while cur != (from.x, from.y) {
                path.push(Point::new(cur.0, cur.1));
                cur = prev[cur.1][cur.0].unwrap();
            }
            path.reverse();
            return Some(path);
        }
        let steps: [(isize, isize); 4] = [(-1, 0), (1, 0), (0, -1), (0, 1)];
        for (dx, dy) in steps.iter() {
            let nx = x as isize + dx;
            let ny = y as isize + dy;
            if nx < 0 || ny < 0 || nx >= w as isize || ny >= h as isize {
                continue;
            }
            let (nx, ny) = (nx as usize, ny as usize);
            if floor[ny][nx] && !seen[ny][nx] {
                seen[ny][nx] = true;
                prev[ny][nx] = Some((x, y));
                queue.push_back((nx, ny));
            }
        }
    }
    None
}

fn floor_of(world: &World) -> Vec<Vec<bool>> {
    world
        .grid
        .iter()
        .map(|row| row.iter().map(|c| c.cell_type == CellType::Floor).collect())
        .collect()
}

fn tick(world: &mut World, key: Option<KeyCode>, rng: &mut RandomSource) {
    let floor = floor_of(world);
    let finder = move |a: Point, b: Point| bfs(&floor, a, b);
    world.tick(key, rng, &finder);
}

fn occupant(world: &World, x: usize, y: usize) -> Option<usize> {
    world.grid[y][x].actor
}

fn messages(world: &World) -> Vec<String> {
    world.messages.clone()
}

#[test]
fn pickup_on_move() {
    let mut world = World::new(3, 3);
    let mut rng = RandomSource::new(1);
    world.set_actor_position(0, &Point::new(1, 1));
    world.add_actor(Actor::ammo_crate(), Point::new(1, 2));
    tick(&mut world, Some(KeyCode::Down), &mut rng);
    assert!(messages(&world).contains(&"Picked up Ammo crate".to_string()));
    assert_eq!(occupant(&world, 1, 2), Some(0));
    assert_eq!(occupant(&world, 1, 1), None);
    assert_eq!(world.actors.len(), 1);
    assert_eq!(world.actors[0].position, Point::new(1, 2));
}

#[test]
fn bump_damages_second_bump_kills() {
    let mut world = World::new(5, 5);
    let mut rng = RandomSource::new(7);
    world.set_actor_position(0, &Point::new(1, 1));
    world.add_actor(Actor::kobold(), Point::new(2, 1));
    tick(&mut world, Some(KeyCode::Right), &mut rng);
    assert_eq!(messages(&world).last().unwrap(), "Kobold bumped by Player");
    assert_eq!(world.actors[1].health, 1);
    assert!(world.actors[1].is_alive());
    // the kobold's turn: it is next to the player and bumps back
    tick(&mut world, None, &mut rng);
    assert_eq!(messages(&world).last().unwrap(), "Player bumped by Kobold");
    assert_eq!(world.actors[0].health, 9);
    tick(&mut world, Some(KeyCode::Right), &mut rng);
    assert!(messages(&world).contains(&"Kobold bumped by Player - Kobold dies".to_string()));
    assert_eq!(occupant(&world, 2, 1), None);
    assert_eq!(world.actors.len(), 1);
    assert_eq!(world.actors[0].position, Point::new(1, 1));
}

#[test]
fn fire_hits_first_occupant() {
    let mut world = World::new(8, 3);
    let mut rng = RandomSource::new(3);
    world.set_actor_position(0, &Point::new(1, 1));
    world.add_actor(Actor::kobold(), Point::new(4, 1));
    world.player_state.ammo = 1;
    tick(&mut world, Some(KeyCode::ToggleAim), &mut rng);
    assert!(world.player_state.is_aiming);
    tick(&mut world, Some(KeyCode::Right), &mut rng);
    assert_eq!(world.player_state.ammo, 0);
    assert_eq!(messages(&world).last().unwrap(), "Player fired at Kobold");
    assert_eq!(world.actors[1].health, 1);
    assert_eq!(world.actors.len(), 2);
    assert_eq!(occupant(&world, 4, 1), Some(1));
}

#[test]
fn out_of_ammo() {
    let mut world = World::new(8, 3);
    let mut rng = RandomSource::new(3);
    world.set_actor_position(0, &Point::new(1, 1));
    world.add_actor(Actor::kobold(), Point::new(4, 1));
    world.player_state.is_aiming = true;
    tick(&mut world, Some(KeyCode::Right), &mut rng);
    assert_eq!(messages(&world).last().unwrap(), "Out of ammo!");
    assert_eq!(world.to_act[0], 0);
    assert_eq!(world.to_act.len(), 2);
    assert_eq!(world.actors[1].position, Point::new(4, 1));
    assert_eq!(world.actors[0].position, Point::new(1, 1));
}

#[test]
fn pathed_pursuit() {
    let mut world = World::new(10, 10);
    let mut rng = RandomSource::new(11);
    world.add_actor(Actor::kobold(), Point::new(5, 0));
    world.player_state.ammo = 1;
    // the player spends its turn on a shot off the map
    tick(&mut world, Some(KeyCode::ToggleAim), &mut rng);
    tick(&mut world, Some(KeyCode::Left), &mut rng);
    assert_eq!(world.actors[1].position, Point::new(5, 0));
    tick(&mut world, None, &mut rng);
    assert_eq!(world.actors[1].position, Point::new(4, 0));
    assert_eq!(occupant(&world, 4, 0), Some(1));
    assert_eq!(occupant(&world, 5, 0), None);
}

#[test]
fn generator_spawns_kobold() {
    let mut world = World::new(10, 10);
    // first draw: the generator's think (1 mod 10 == 1); second: East
    let mut rng = RandomSource::scripted(vec![1, 2], 5);
    world.add_actor(Actor::kobold_generator(), Point::new(5, 5));
    tick(&mut world, Some(KeyCode::Down), &mut rng);
    assert_eq!(world.actors.len(), 2);
    tick(&mut world, None, &mut rng);
    assert_eq!(world.actors.len(), 3);
    assert_eq!(world.actors[2].name, "Kobold");
    assert_eq!(world.actors[2].position, Point::new(6, 5));
    assert_eq!(occupant(&world, 6, 5), Some(2));
    // the round is over: the newcomer did not get a turn in it
    assert!(world.to_act.is_empty());
}

#[test]
fn aim_toggle_twice_consumes_no_round() {
    let mut world = World::new(6, 6);
    let mut rng = RandomSource::new(9);
    world.add_actor(Actor::kobold(), Point::new(4, 4));
    tick(&mut world, Some(KeyCode::ToggleAim), &mut rng);
    assert!(world.player_state.is_aiming);
    tick(&mut world, Some(KeyCode::ToggleAim), &mut rng);
    assert!(!world.player_state.is_aiming);
    assert_eq!(world.to_act, vec![0, 1]);
    assert_eq!(world.actors[1].position, Point::new(4, 4));
}

#[test]
fn player_without_input_blocks_the_round() {
    let mut world = World::new(6, 6);
    let mut rng = RandomSource::new(9);
    world.add_actor(Actor::kobold(), Point::new(4, 4));
    for _ in 0..5 {
        tick(&mut world, None, &mut rng);
    }
    assert_eq!(world.to_act, vec![0, 1]);
    assert_eq!(world.actors[1].position, Point::new(4, 4));
}

#[test]
fn message_log_keeps_last_three() {
    let mut world = World::new(2, 2);
    world.add_message("a");
    world.add_message("b");
    world.add_message("c");
    world.add_message("d");
    assert_eq!(world.messages, vec!["b".to_string(), "c".to_string(), "d".to_string()]);
}

#[test]
fn dead_actors_are_swept_each_tick() {
    let mut world = World::new(6, 1);
    let mut rng = RandomSource::new(2);
    world.add_actor(Actor::ammo_crate(), Point::new(3, 0));
    world.add_actor(Actor::kobold(), Point::new(5, 0));
    world.player_state.ammo = 1;
    tick(&mut world, Some(KeyCode::ToggleAim), &mut rng);
    tick(&mut world, Some(KeyCode::Right), &mut rng);
    // the bullet stops at the crate, which is not solid, and destroys it
    assert_eq!(messages(&world).last().unwrap(), "Player fired at Ammo crate - Ammo crate dies");
    assert_eq!(world.actors.len(), 2);
    assert_eq!(world.actors[1].name, "Kobold");
    assert_eq!(occupant(&world, 5, 0), Some(1));
    assert_eq!(occupant(&world, 3, 0), None);
    for a in world.actors.iter().skip(1) {
        assert!(a.is_alive());
    }
}

#[test]
fn walking_into_a_wall_is_no_action() {
    let mut world = World::new(3, 3);
    let mut rng = RandomSource::new(2);
    world.grid[0][1].cell_type = CellType::Wall;
    tick(&mut world, Some(KeyCode::Right), &mut rng);
    assert_eq!(world.actors[0].position, Point::new(0, 0));
    tick(&mut world, Some(KeyCode::Up), &mut rng);
    assert_eq!(world.actors[0].position, Point::new(0, 0));
    tick(&mut world, Some(KeyCode::Down), &mut rng);
    assert_eq!(world.actors[0].position, Point::new(0, 1));
}
