use vstd::prelude::*;

use crate::actor::{alive, Actor, MonsterState};
use crate::util::{step, Direction, Point};
use crate::world::{capped, cell_walkable, put, Cell, World};

verus! {

/// What an actor decided to do this turn.
#[derive(Clone, Copy, PartialEq, Eq, Structural, Debug)]
pub enum Action {
    Wait,
    Spawn(Point),
    Move(Point),
    Bump(Point),
    Fire(Direction),
}

/// How many more cells a bullet at `p` flying in `d` can cross before it
/// leaves the map.
pub open spec fn steps_left(w: World, p: Point, d: Direction) -> nat {
    if !w.in_bounds(p) {
        0
    } else {
        match d {
            Direction::North => (p.y + 1) as nat,
            Direction::South => (w.height - p.y) as nat,
            Direction::East => (w.width - p.x) as nat,
            Direction::West => (p.x + 1) as nat,
        }
    }
}

/// The first occupied cell on the line from `p` in direction `d`, if the
/// line meets one before it leaves the map.
pub open spec fn bullet_target(w: World, p: Point, d: Direction) -> Option<Point>
    decreases steps_left(w, p, d),
{
    if !w.in_bounds(p) {
        None
    } else if w.cell(p).actor is Some {
        Some(p)
    } else {
        bullet_target(w, step(p, d), d)
    }
}

/// The tail of a hit message: who died, if the hit killed.
pub open spec fn death_suffix(name: Seq<char>, died: bool) -> Seq<char> {
    if died {
        " - "@ + name + " dies"@
    } else {
        Seq::empty()
    }
}

/// Nothing but the actors, the grid and the messages changed.
pub open spec fn same_frame(o: World, n: World) -> bool {
    &&& n.width == o.width
    &&& n.height == o.height
    &&& n.player_state == o.player_state
    &&& n.to_act@ == o.to_act@
}

/// Nothing changed.
pub open spec fn unchanged(o: World, n: World) -> bool {
    &&& same_frame(o, n)
    &&& n.actors@ == o.actors@
    &&& n.cells() == o.cells()
    &&& n.messages@ == o.messages@
}

/// The occupant of `q` took one point of damage, was cleared from the map
/// if that killed it, and `head` followed by the death notice was logged.
pub open spec fn struck(o: World, n: World, q: Point, head: Seq<char>) -> bool {
    let t = o.cell(q).actor->0 as int;
    let died = o.actors@[t].health <= 1;
    &&& same_frame(o, n)
    &&& n.actors@ == o.actors@.update(t, Actor { health: (o.actors@[t].health - 1) as i64, ..o.actors@[t] })
    &&& n.cells() == if died {
        put(o.cells(), q, None)
    } else {
        o.cells()
    }
    &&& n.log() == capped(o.log().push(head + death_suffix(o.actors@[t].name@, died)))
}

/// A bump by actor `a` on the cell `p`.
pub open spec fn bump_done(o: World, n: World, a: usize, p: Point) -> bool {
    if o.in_bounds(p) && o.cell(p).actor is Some {
        let t = o.cell(p).actor->0 as int;
        struck(o, n, p, o.actors@[t].name@ + " bumped by "@ + o.actors@[a as int].name@)
    } else {
        unchanged(o, n)
    }
}

/// A shot by actor `a` in direction `d`: the first occupant on the line is hit.
pub open spec fn fire_done(o: World, n: World, a: usize, d: Direction) -> bool {
    match bullet_target(o, step(o.actors@[a as int].position, d), d) {
        None => unchanged(o, n),
        Some(q) => {
            let t = o.cell(q).actor->0 as int;
            struck(o, n, q, o.actors@[a as int].name@ + " fired at "@ + o.actors@[t].name@)
        },
    }
}

/// `k` is a fresh kobold standing at `p`.
pub open spec fn fresh_kobold(k: Actor, p: Point) -> bool {
    &&& k.position == p
    &&& k.glyph == 'k'
    &&& k.name@ == "Kobold"@
    &&& !k.is_player
    &&& k.is_solid
    &&& k.health == 2
    &&& k.brain matches crate::actor::Brain::Monster(m) && m.state == MonsterState::Passive
        && m.path@.len() == 0 && m.stuck_on_path_count == 0
}

/// `g` is a fresh kobold generator standing at `p`.
pub open spec fn fresh_generator(g: Actor, p: Point) -> bool {
    &&& g.position == p
    &&& g.glyph == 'G'
    &&& g.name@ == "Kobold generator"@
    &&& !g.is_player
    &&& g.is_solid
    &&& g.health == 5
    &&& g.brain is Generator
}

/// A spawn at `p`: a kobold appears there if the cell is empty.
pub open spec fn spawn_done(o: World, n: World, p: Point) -> bool {
    if o.in_bounds(p) && o.cell(p).actor is None {
        &&& same_frame(o, n)
        &&& n.actors@.len() == o.actors@.len() + 1
        &&& n.actors@.subrange(0, o.actors@.len() as int) == o.actors@
        &&& fresh_kobold(n.actors@[o.actors@.len() as int], p)
        &&& n.cells() == put(o.cells(), p, Some(o.actors@.len() as usize))
        &&& n.messages@ == o.messages@
    } else {
        unchanged(o, n)
    }
}

/// The item that actor `a` picks up by moving to `p`: another occupant of `p`.
pub open spec fn pickup_target(o: World, a: usize, p: Point) -> Option<usize> {
    if o.in_bounds(p) && o.cell(p).actor is Some && o.cell(p).actor->0 != a {
        o.cell(p).actor
    } else {
        None
    }
}

/// The actors once the item at `p` has been picked up.
pub open spec fn actors_after_pickup(o: World, a: usize, p: Point) -> Seq<Actor> {
    match pickup_target(o, a, p) {
        Some(t) => o.actors@.update(t as int, Actor { health: 0, ..o.actors@[t as int] }),
        None => o.actors@,
    }
}

/// The grid once the item at `p` has been picked up.
pub open spec fn cells_after_pickup(o: World, a: usize, p: Point) -> Seq<Seq<Cell>> {
    match pickup_target(o, a, p) {
        Some(_) => put(o.cells(), p, None),
        None => o.cells(),
    }
}

/// A move by actor `a` to `p`: an item there is picked up (it dies, leaves
/// the map, and a message names it); then, if `p` can be entered, the actor
/// leaves its cell for `p`.
pub open spec fn move_done(o: World, n: World, a: usize, p: Point) -> bool {
    let acts = actors_after_pickup(o, a, p);
    let cells = cells_after_pickup(o, a, p);
    let enter = o.in_bounds(p) && cell_walkable(cells[p.y as int][p.x as int], acts);
    &&& same_frame(o, n)
    &&& n.log() == match pickup_target(o, a, p) {
        Some(t) => capped(o.log().push("Picked up "@ + o.actors@[t as int].name@)),
        None => o.log(),
    }
    &&& n.actors@ == if enter {
        acts.update(a as int, Actor { position: p, ..acts[a as int] })
    } else {
        acts
    }
    &&& n.cells() == if enter {
        put(put(cells, o.actors@[a as int].position, None), p, Some(a))
    } else {
        cells
    }
}

/// The actors of `o` are still in `n`, in their places, as the same kind
/// of actor with the same brain; new ones may follow them.
pub open spec fn identities_kept(o: World, n: World) -> bool {
    &&& n.actors@.len() >= o.actors@.len()
    &&& forall|j: int|
        0 <= j < o.actors@.len() ==> (#[trigger] n.actors@[j]).is_player == o.actors@[j].is_player
            && n.actors@[j].brain == o.actors@[j].brain && n.actors@[j].name == o.actors@[j].name
}

/// What executing `action` by actor `a` does to the world.
#[verifier::opaque]
pub open spec fn executed(o: World, n: World, a: usize, action: Action) -> bool {
    match action {
        Action::Wait => unchanged(o, n),
        Action::Spawn(p) => spawn_done(o, n, p),
        Action::Move(p) => move_done(o, n, a, p),
        Action::Bump(p) => bump_done(o, n, a, p),
        Action::Fire(d) => fire_done(o, n, a, d),
    }
}



/// Hits the occupant of `q` for one point and logs `head` followed by the
/// death notice.
fn strike(world: &mut World, q: &Point, head: String)
    requires
        old(world).wf(),
        old(world).in_bounds(*q),
        old(world).cell(*q).actor is Some,
    ensures
        final(world).wf(),
        struck(*old(world), *final(world), *q, head@),
        identities_kept(*old(world), *final(world)),
{
    let t = world.occupant_at(q).unwrap();
    let name = world.actors[t].name.clone();
    let died = world.damage_occupant(q);
    let mut m = head;
    if died {
        m.append(" - ");
        m.append(name.as_str());
        m.append(" dies");
    }
    assert(m@ =~= head@ + death_suffix(name@, died));
    world.add_message(m.as_str());
}

/// Actor `a` bumps into the cell `p`; an empty cell is left alone.
fn execute_bump(world: &mut World, a: usize, p: &Point)
    requires
        old(world).wf(),
        a < old(world).actors@.len(),
    ensures
        final(world).wf(),
        bump_done(*old(world), *final(world), a, *p),
        identities_kept(*old(world), *final(world)),
{
    if !world.is_valid(p) {
        return;
    }
    match world.occupant_at(p) {
        Some(t) => {
            let mut head = world.actors[t].name.clone();
            head.append(" bumped by ");
            head.append(world.actors[a].name.as_str());
            strike(world, p, head);
        },
        None => {},
    }
}

/// Actor `a` fires in direction `d`: the bullet flies until it meets an
/// occupant or leaves the map.
fn execute_fire(world: &mut World, a: usize, d: Direction)
    requires
        old(world).wf(),
        a < old(world).actors@.len(),
    ensures
        final(world).wf(),
        fire_done(*old(world), *final(world), a, d),
        identities_kept(*old(world), *final(world)),
{
    let ghost o = *world;
    let start = world.actors[a].position.translated(&d);
    let mut bullet = start;
    while world.is_valid(&bullet) && world.occupant_at(&bullet).is_none()
        invariant
            *world == o,
            world.wf(),
            bullet_target(o, bullet, d) == bullet_target(o, start, d),
        decreases steps_left(o, bullet, d),
    {
        bullet.translate(&d);
    }
    if world.is_valid(&bullet) {
        let t = world.occupant_at(&bullet).unwrap();
        let mut head = world.actors[a].name.clone();
        head.append(" fired at ");
        head.append(world.actors[t].name.as_str());
        strike(world, &bullet, head);
    }
}

/// A fresh kobold appears at `p` if that cell is empty.
fn execute_spawn(world: &mut World, p: &Point)
    requires
        old(world).wf(),
    ensures
        final(world).wf(),
        spawn_done(*old(world), *final(world), *p),
        identities_kept(*old(world), *final(world)),
{
    if world.is_valid(p) && world.occupant_at(p).is_none() {
        let ghost o = *world;
        world.add_actor(Actor::kobold(), *p);
        assert(world.actors@.subrange(0, o.actors@.len() as int) =~= o.actors@);
    }
}

/// Actor `a` moves to `p`, picking up whatever else lies there.
fn execute_move(world: &mut World, a: usize, p: &Point)
    requires
        old(world).wf(),
        a < old(world).actors@.len(),
        alive(old(world).actors@[a as int]),
    ensures
        final(world).wf(),
        move_done(*old(world), *final(world), a, *p),
        identities_kept(*old(world), *final(world)),
{
    let ghost o = *world;
    if world.is_valid(p) {
        match world.occupant_at(p) {
            Some(t) => {
                if t != a {
                    let mut m = "Picked up ".to_owned();
                    m.append(world.actors[t].name.as_str());
                    world.actors[t].health = 0;
                    assert(world.wf_hole(Some(*p)));
                    world.remove_actor(p);
                    world.add_message(m.as_str());
                    assert(world.actors@ =~= actors_after_pickup(o, a, *p));
                }
            },
            None => {},
        }
    }
    assert(world.actors@ == actors_after_pickup(o, a, *p));
    assert(world.cells() == cells_after_pickup(o, a, *p));
    if world.is_walkable(p) {
        world.set_actor_position(a, p);
    }
}

impl Action {
    /// Carries out the action of the live actor `actor`. A bump needs an
    /// occupant to hit: brains only decide on one where there is.
    pub fn execute(&self, actor: usize, world: &mut World)
        requires
            old(world).wf(),
            actor < old(world).actors@.len(),
            alive(old(world).actors@[actor as int]),
            *self matches Action::Bump(p) ==> old(world).bumpable(p, false),
        ensures
            final(world).wf(),
            executed(*old(world), *final(world), actor, *self),
            identities_kept(*old(world), *final(world)),
            same_frame(*old(world), *final(world)),
    {
        reveal(executed);
        match *self {
            Action::Wait => {
                assert(identities_kept(*old(world), *world));
            },
            Action::Spawn(p) => execute_spawn(world, &p),
            Action::Move(p) => execute_move(world, actor, &p),
            Action::Bump(p) => execute_bump(world, actor, &p),
            Action::Fire(d) => execute_fire(world, actor, d),
        }
    }

    pub fn make_wait_action() -> (r: Action)
        ensures
            r == Action::Wait,
    {
        Action::Wait
    }

    pub fn make_spawn_action(position: &Point) -> (r: Action)
        ensures
            r == Action::Spawn(*position),
    {
        Action::Spawn(*position)
    }

    pub fn make_move_action(position: &Point) -> (r: Action)
        ensures
            r == Action::Move(*position),
    {
        Action::Move(*position)
    }

    pub fn make_bump_action(position: &Point) -> (r: Action)
        ensures
            r == Action::Bump(*position),
    {
        Action::Bump(*position)
    }

    pub fn make_fire_action(direction: Direction) -> (r: Action)
        ensures
            r == Action::Fire(direction),
    {
        Action::Fire(direction)
    }
}

} // verus!
