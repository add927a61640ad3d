use std::collections::{HashSet, VecDeque};

use kobold_mayhem::actor::Actor;
use kobold_mayhem::generator::generate;
use kobold_mayhem::input::KeyCode;
use kobold_mayhem::rng::RandomSource;
use kobold_mayhem::util::Point;
use kobold_mayhem::world::{CellType, World};

fn bfs(floor: &Vec<Vec<bool>>, from: Point, to: Point) -> Option<Vec<Point>> {
    let h = floor.len();
    let w = floor[0].len();
    let mut prev: Vec<Vec<Option<(usize, usize)>>> = vec![vec![None; w]; h];
    let mut seen = vec![vec![false; w]; h];
    let mut queue = VecDeque::new();
    seen[from.y][from.x] = true;
    queue.push_back((from.x, from.y));
    while let Some((x, y)) = queue.pop_front() {
        if (x, y) == (to.x, to.y) {
            let mut path = Vec::new();
            let mut cur = (x, y);
            while cur != (from.x, from.y) {
                path.push(Point::new(cur.0, cur.1));
                cur = prev[cur.1][cur.0].unwrap();
            }
            path.reverse();
            return Some(path);
        }
        let around = [(x.wrapping_sub(1), y), (x + 1, y), (x, y.wrapping_sub(1)), (x, y + 1)];
        for &(nx, ny) in around.iter() {
            if nx < w && ny < h && floor[ny][nx] && !seen[ny][nx] {
                seen[ny][nx] = true;
                prev[ny][nx] = Some((x, y));
                queue.push_back((nx, ny));
            }
        }
    }
    None
}

fn check_invariants(world: &World) {
    // an occupant stands at its cell, and is alive
    let mut occupied = HashSet::new();
    for (y, row) in world.grid.iter().enumerate() {
        for (x, cell) in row.iter().enumerate() {
            if let Some(k) = cell.actor {
                assert_eq!(world.actors[k].position, Point::new(x, y));
                assert!(world.actors[k].is_alive());
                occupied.insert((x, y));
            }
        }
    }
    // the occupied cells are the positions of the live actors
    let live: HashSet<(usize, usize)> = world
        .actors
        .iter()
        .filter(|a| a.is_alive())
        .map(|a| (a.position.x, a.position.y))
        .collect();
    assert_eq!(occupied, live);
    // only the player may be dead
    for a in world.actors.iter().skip(1) {
        assert!(a.is_alive());
    }
    assert!(world.actors[0].is_player);
    assert!(world.messages.len() <= 3);
    // the queue names distinct actors, in list order
    for pair in world.to_act.windows(2) {
        assert!(pair[0] < pair[1]);
    }
    for &k in world.to_act.iter() {
        assert!(k < world.actors.len());
    }
}

#[test]
fn invariants_hold_through_a_game() {
    let mut world = World::new(40, 30);
    let mut rng = RandomSource::new(2024);
    generate(&mut world, &mut rng).unwrap();
    world.player_state.ammo = 5;
    world.add_actor(Actor::ammo_crate(), find_free(&world));
    check_invariants(&world);
    let keys = [KeyCode::Up, KeyCode::Right, KeyCode::ToggleAim, KeyCode::Down, KeyCode::Left, KeyCode::Wait];
    let mut keys_rng = RandomSource::new(77);
    for _ in 0..600 {
        if world.is_game_over() {
            break;
        }
        let key = keys[(keys_rng.next_u64() % keys.len() as u64) as usize];
        let floor: Vec<Vec<bool>> =
            world.grid.iter().map(|r| r.iter().map(|c| c.cell_type == CellType::Floor).collect()).collect();
        let finder = move |a: Point, b: Point| bfs(&floor, a, b);
        world.tick(Some(key), &mut rng, &finder);
        check_invariants(&world);
    }
}

fn find_free(world: &World) -> Point {
    for (y, row) in world.grid.iter().enumerate() {
        for (x, cell) in row.iter().enumerate() {
            if cell.cell_type == CellType::Floor && cell.actor.is_none() {
                return Point::new(x, y);
            }
        }
    }
    panic!("no free floor cell")
}

#[test]
fn detached_actor_decides() {
    let mut world = World::new(5, 5);
    let mut rng = RandomSource::scripted(vec![2], 0);
    let mut gen = Actor::kobold_generator();
    gen.position = Point::new(2, 2);
    let finder = |_a: Point, _b: Point| -> Option<Vec<Point>> { None };
    let action = gen.act(None, &mut world, &mut rng, &finder);
    assert_eq!(action, Some(kobold_mayhem::action::Action::Spawn(Point::new(3, 2))));
}
