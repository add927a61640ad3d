use vstd::prelude::*;

use crate::action::{unchanged, Action};
use crate::input::KeyCode;
use crate::path::{check_path, valid_path};
use crate::rng::RandomSource;
use crate::util::{adjacent, direction_of, manhattan, step, Color, Direction, Point};
use crate::world::{capped, PlayerState, World};

verus! {

/// The brain of the player: it acts on the key that was pressed.
#[derive(Clone, Copy, PartialEq, Eq, Structural, Debug)]
pub struct PlayerBrain {}

/// Whether a monster has noticed the player yet.
#[derive(Clone, Copy, PartialEq, Eq, Structural, Debug)]
pub enum MonsterState {
    Passive,
    Aggressive,
}

/// The brain of a monster: it wanders until the player comes near, then
/// follows a path towards the player and attacks.
pub struct MonsterBrain {
    pub state: MonsterState,
    /// The steps still to take, first step first.
    pub path: Vec<Point>,
    /// How many path searches in a row have failed.
    pub stuck_on_path_count: usize,
}

/// The brain of a generator: now and then it spawns a monster next to itself.
#[derive(Clone, Copy, PartialEq, Eq, Structural, Debug)]
pub struct GeneratorBrain {}

/// The brain of an item: it never acts.
#[derive(Clone, Copy, PartialEq, Eq, Structural, Debug)]
pub struct NoBrain {}

/// The decision maker of an actor.
pub enum Brain {
    Player(PlayerBrain),
    Monster(MonsterBrain),
    Generator(GeneratorBrain),
    Inert(NoBrain),
}

impl PlayerBrain {
    pub fn new() -> (r: PlayerBrain) {
        PlayerBrain {  }
    }
}

impl MonsterBrain {
    pub fn new() -> (r: MonsterBrain)
        ensures
            r.state == MonsterState::Passive,
            r.path@.len() == 0,
            r.stuck_on_path_count == 0,
    {
        MonsterBrain { state: MonsterState::Passive, path: Vec::new(), stuck_on_path_count: 0 }
    }

    pub fn has_path(&self) -> (r: bool)
        ensures
            r == (self.path@.len() > 0),
    {
        self.path.len() > 0
    }
}

impl GeneratorBrain {
    pub fn new() -> (r: GeneratorBrain) {
        GeneratorBrain {  }
    }
}

impl NoBrain {
    pub fn new() -> (r: NoBrain) {
        NoBrain {  }
    }
}


/// The direction that an arrow key stands for.
pub open spec fn key_direction(k: KeyCode) -> Option<Direction> {
    match k {
        KeyCode::Up => Some(Direction::North),
        KeyCode::Down => Some(Direction::South),
        KeyCode::Left => Some(Direction::West),
        KeyCode::Right => Some(Direction::East),
        _ => None,
    }
}

/// Walk onto `q` if it can be entered, else bump its occupant (only the
/// player, if `only_player`), else nothing.
pub open spec fn walk_or_bump(w: World, q: Point, only_player: bool) -> Option<Action> {
    if w.walkable(q) {
        Some(Action::Move(q))
    } else if w.bumpable(q, only_player) {
        Some(Action::Bump(q))
    } else {
        None
    }
}

/// What a monster does towards `q`: walk there, bump the player there, or wait.
pub open spec fn monster_step(w: World, q: Point) -> Action {
    match walk_or_bump(w, q, true) {
        Some(a) => a,
        None => Action::Wait,
    }
}

/// A random step from `pos` in the direction that the draw `v` picks.
pub open spec fn random_step(w: World, pos: Point, v: u64) -> Action {
    monster_step(w, step(pos, direction_of(v)))
}

/// A generator spawns on the neighbour that the draw `v` picks, if it can
/// be entered; else it waits.
pub open spec fn spawn_choice(w: World, pos: Point, v: u64) -> Action {
    let q = step(pos, direction_of(v));
    if w.walkable(q) {
        Action::Spawn(q)
    } else {
        Action::Wait
    }
}

/// Only the player's state and the messages changed.
pub open spec fn same_map(o: World, n: World) -> bool {
    &&& n.width == o.width
    &&& n.height == o.height
    &&& n.cells() == o.cells()
    &&& n.actors@ == o.actors@
    &&& n.to_act@ == o.to_act@
}

/// The player at `pos`, on `key`, turns the world `o` into `n` and decides `r`.
pub open spec fn player_turn(o: World, n: World, pos: Point, key: Option<KeyCode>, r: Option<
    Action,
>) -> bool {
    match key {
        Some(KeyCode::ToggleAim) => {
            &&& r is None
            &&& same_map(o, n)
            &&& n.messages@ == o.messages@
            &&& n.player_state == (PlayerState {
                is_aiming: !o.player_state.is_aiming,
                ..o.player_state
            })
        },
        Some(k) => match key_direction(k) {
            Some(d) => if o.player_state.is_aiming {
                if o.player_state.ammo > 0 {
                    &&& r == Some(Action::Fire(d))
                    &&& same_map(o, n)
                    &&& n.messages@ == o.messages@
                    &&& n.player_state == (PlayerState {
                        ammo: (o.player_state.ammo - 1) as u32,
                        ..o.player_state
                    })
                } else {
                    &&& r is None
                    &&& same_map(o, n)
                    &&& n.player_state == o.player_state
                    &&& n.log() == capped(o.log().push("Out of ammo!"@))
                }
            } else {
                &&& r == walk_or_bump(o, step(pos, d), false)
                &&& unchanged(o, n)
            },
            None => r is None && unchanged(o, n),
        },
        None => r is None && unchanged(o, n),
    }
}


/// `n` is one more than `c`, saturating at the largest count.
pub open spec fn bumped_count(c: usize, n: usize) -> bool {
    n == if c < usize::MAX {
        c + 1
    } else {
        usize::MAX as int
    }
}

/// What a monster with no path and failure count `c0` holds once the path
/// finder has answered for the way from `from` to `to`, whatever it
/// answered: a valid path and no failures, or still no path and one more
/// failure.
#[verifier::opaque]
pub open spec fn recorded(c0: usize, p1: Seq<Point>, c1: usize, w: World, from: Point, to: Point) -> bool {
    (valid_path(w, from, to, p1) && c1 == 0) || (p1.len() == 0 && bumped_count(c0, c1))
}

#[verifier::opaque]
pub open spec fn followed(p: Seq<Point>, c: usize, n: MonsterBrain, w: World, pos: Point, g0: RandomSource, g1: RandomSource, r: Option<Action>) -> bool {
    &&& n.stuck_on_path_count == c
    &&& if p.len() > 0 {
        &&& r == Some(monster_step(w, p[0]))
        &&& n.path@ == p.drop_first()
        &&& g1 == g0
    } else if c > 2 {
        &&& r == Some(random_step(w, pos, g0.peek()))
        &&& n.path@.len() == 0
        &&& g1 == g0.advance()
    } else {
        &&& r == Some(Action::Wait)
        &&& n.path@ == p
        &&& g1 == g0
    }
}

/// What an aggressive monster at `pos`, with path `p_old` and failure count
/// `c_old`, decides in `w`: it bumps the player when next to it and the
/// player is on the map; otherwise it drops its path when the player is
/// closer than 4 steps, asks for a new path when it has none, and goes on
/// along the path.
#[verifier::opaque]
pub open spec fn pursued(p_old: Seq<Point>, c_old: usize, n: MonsterBrain, w: World, pos: Point, g0: RandomSource, g1: RandomSource, r: Option<Action>) -> bool {
    let pp = w.player_position();
    if adjacent(pos, pp) && w.bumpable(pp, true) {
        &&& r == Some(Action::Bump(pp))
        &&& g1 == g0
        &&& n.path@ == p_old
        &&& n.stuck_on_path_count == c_old
    } else {
        if manhattan(pos, pp) >= 4 && p_old.len() > 0 {
            followed(p_old, c_old, n, w, pos, g0, g1, r)
        } else {
            exists|p: Seq<Point>, c: usize|
                recorded(c_old, p, c, w, pos, pp) && followed(p, c, n, w, pos, g0, g1, r)
        }
    }
}

/// What a monster brain `m0` at `pos` decides in `w` (see `MonsterBrain::act`),
/// `m1` being the brain afterwards and `g0`, `g1` the random source before
/// and after.
#[verifier::opaque]
pub open spec fn monster_decided(m0: MonsterBrain, m1: MonsterBrain, w: World, pos: Point, g0: RandomSource, g1: RandomSource, r: Option<Action>) -> bool {
    let pp = w.player_position();
    &&& r matches Some(a) && monster_action_sound(w, pos, a)
    &&& if m0.state == MonsterState::Passive && manhattan(pos, pp) >= 20 {
        &&& r == Some(random_step(w, pos, g0.peek()))
        &&& g1 == g0.advance()
        &&& m1 == m0
    } else {
        &&& m1.state == MonsterState::Aggressive
        &&& pursued(m0.path@, m0.stuck_on_path_count, m1, w, pos, g0, g1, r)
    }
}

/// The path a monster with no path holds once the path finder answered
/// `found` for the way from `from` to `to`: the answer if it is a valid path,
/// else still none.
pub open spec fn taken_path(found: Option<Vec<Point>>, w: World, from: Point, to: Point) -> Seq<Point> {
    match found {
        Some(p) => if valid_path(w, from, to, p@) {
            p@
        } else {
            Seq::empty()
        },
        None => Seq::empty(),
    }
}

/// The failure count, from `c0`, once the path finder answered `found`.
pub open spec fn taken_count(found: Option<Vec<Point>>, c0: usize, w: World, from: Point, to: Point) -> usize {
    match found {
        Some(p) if valid_path(w, from, to, p@) => 0,
        _ => if c0 < usize::MAX {
            (c0 + 1) as usize
        } else {
            c0
        },
    }
}

/// When the monster brain `m0` at `pos` must plan (it is aggressive or turns
/// aggressive, the player is not there to bump, and it has no path left or
/// the player is closer than 4 steps), it asked `find_path` for the way to
/// the player, and what it did next follows from the answer.
pub open spec fn consulted<F: Fn(Point, Point) -> Option<Vec<Point>>>(find_path: F, m0: MonsterBrain, m1: MonsterBrain, w: World, pos: Point, g0: RandomSource, g1: RandomSource, r: Option<Action>) -> bool {
    let pp = w.player_position();
    let p0 = if manhattan(pos, pp) < 4 {
        Seq::<Point>::empty()
    } else {
        m0.path@
    };
    !(m0.state == MonsterState::Passive && manhattan(pos, pp) >= 20) && !(adjacent(pos, pp) && w.bumpable(pp, true))
        && p0.len() == 0 ==> exists|found: Option<Vec<Point>>|
        #![trigger find_path.ensures((pos, pp), found)]
        find_path.ensures((pos, pp), found) && followed(
            taken_path(found, w, pos, pp),
            taken_count(found, m0.stuck_on_path_count, w, pos, pp),
            m1,
            w,
            pos,
            g0,
            g1,
            r,
        )
}

/// Every action that a monster at `pos` may take in `w` is sound: it walks
/// only onto cells that can be entered and bumps only the player.
pub open spec fn monster_action_sound(w: World, pos: Point, a: Action) -> bool {
    match a {
        Action::Wait => true,
        Action::Move(q) => w.walkable(q),
        Action::Bump(q) => w.bumpable(q, true),
        _ => false,
    }
}


/// What the brain `b` of an actor at `pos` decides, and does to the world,
/// to the random source and to itself (it becomes `b1`).
#[verifier::opaque]
pub open spec fn decided(b: Brain, b1: Brain, o: World, n: World, pos: Point, key: Option<KeyCode>, g0: RandomSource, g1: RandomSource, r: Option<Action>) -> bool {
    match b {
        Brain::Player(_) => {
            &&& player_turn(o, n, pos, key, r)
            &&& g1 == g0
            &&& b1 == b
        },
        Brain::Monster(m0) => {
            &&& unchanged(o, n)
            &&& r matches Some(a) && monster_action_sound(o, pos, a)
            &&& b1 is Monster
            &&& monster_decided(m0, b1->Monster_0, o, pos, g0, g1, r)
        },
        Brain::Generator(_) => {
            &&& unchanged(o, n)
            &&& r == Some(spawn_choice(o, pos, g0.peek()))
            &&& g1 == g0.advance()
            &&& b1 == b
        },
        Brain::Inert(_) => {
            &&& unchanged(o, n)
            &&& r is None
            &&& g1 == g0
            &&& b1 == b
        },
    }
}

/// Whatever a monster does by going on along its path is sound.
pub proof fn lemma_followed_sound(p: Seq<Point>, c: usize, n: MonsterBrain, w: World, pos: Point, g0: RandomSource, g1: RandomSource, r: Option<Action>)
    requires
        followed(p, c, n, w, pos, g0, g1, r),
    ensures
        r matches Some(a) && monster_action_sound(w, pos, a),
{
    reveal(followed);
}

impl PlayerBrain {
    /// Decides the player's action from the key pressed, if any. Toggling
    /// the aim and running out of ammunition take no turn.
    pub fn act(&mut self, current_position: &Point, key: Option<KeyCode>, world: &mut World) -> (r:
        Option<Action>)
        requires
            old(world).wf(),
        ensures
            final(world).wf(),
            player_turn(*old(world), *final(world), *current_position, key, r),
            *final(self) == *old(self),
    {
        let direction = match key {
            Some(KeyCode::Up) => Direction::North,
            Some(KeyCode::Down) => Direction::South,
            Some(KeyCode::Left) => Direction::West,
            Some(KeyCode::Right) => Direction::East,
            Some(KeyCode::ToggleAim) => {
                world.player_state.toggle_aiming();
                return None;
            },
            _ => {
                return None;
            },
        };
        if world.player_state.is_aiming {
            if world.has_ammo() {
                world.decrease_ammo();
                Some(Action::make_fire_action(direction))
            } else {
                world.add_message("Out of ammo!");
                None
            }
        } else {
            let position = current_position.translated(&direction);
            if world.is_walkable(&position) {
                Some(Action::make_move_action(&position))
            } else if world.is_bumpable(&position, false) {
                Some(Action::make_bump_action(&position))
            } else {
                None
            }
        }
    }
}

impl MonsterBrain {
    /// A step in a random direction: walk, bump the player, or wait.
    pub fn walk_random(&mut self, current_position: &Point, world: &World, rng: &mut RandomSource) -> (r:
        Option<Action>)
        requires
            world.wf(),
        ensures
            r == Some(random_step(*world, *current_position, old(rng).peek())),
            *final(rng) == old(rng).advance(),
            *final(self) == *old(self),
    {
        let next = current_position.translated(&Direction::random_direction(rng));
        Some(self.step_to(&next, world))
    }

    /// Walks onto `q`, bumps the player there, or waits.
    fn step_to(&self, q: &Point, world: &World) -> (r: Action)
        requires
            world.wf(),
        ensures
            r == monster_step(*world, *q),
    {
        if world.is_walkable(q) {
            Action::make_move_action(q)
        } else if world.is_bumpable(q, true) {
            Action::make_bump_action(q)
        } else {
            Action::make_wait_action()
        }
    }

    /// Records what the path finder answered for the way from `from` to
    /// `to`: a valid path is kept and clears the failure count; no path, or
    /// one that does not lead there over floor, counts as a failure.
    pub fn take_path(&mut self, found: Option<Vec<Point>>, world: &World, from: &Point, to: &Point)
        requires
            world.shaped(),
        ensures
            final(self).state == old(self).state,
            match found {
                Some(p) if valid_path(*world, *from, *to, p@) => {
                    &&& final(self).path@ == p@
                    &&& final(self).stuck_on_path_count == 0
                },
                _ => {
                    &&& final(self).path@ == old(self).path@
                    &&& final(self).stuck_on_path_count == if old(self).stuck_on_path_count
                        < usize::MAX {
                        old(self).stuck_on_path_count + 1
                    } else {
                        usize::MAX as int
                    }
                },
            },
    {
        match found {
            Some(p) => {
                if check_path(world, from, to, &p) {
                    self.path = p;
                    self.stuck_on_path_count = 0;
                } else {
                    self.stuck_on_path_count = self.stuck_on_path_count.saturating_add(1);
                }
            },
            None => {
                self.stuck_on_path_count = self.stuck_on_path_count.saturating_add(1);
            },
        }
    }

    /// Decides the monster's action. A passive monster wanders until the
    /// player is closer than 20 steps, and then turns aggressive at once.
    /// An aggressive monster bumps the player when next to it; otherwise it
    /// follows its path, asking `find_path` for a new one when it has none
    /// (and always when the player is closer than 4 steps), and wanders once
    /// more than two searches in a row have failed.
    pub fn act<F>(&mut self, current_position: &Point, world: &World, rng: &mut RandomSource, find_path: &F) -> (r:
        Option<Action>) where F: Fn(Point, Point) -> Option<Vec<Point>>
        requires
            world.wf(),
            forall|a: Point, b: Point| find_path.requires((a, b)),
        ensures
            r matches Some(a) && monster_action_sound(*world, *current_position, a),
            monster_decided(*old(self), *final(self), *world, *current_position, *old(rng), *final(rng), r),
            consulted(*find_path, *old(self), *final(self), *world, *current_position, *old(rng), *final(rng), r),
    {
        reveal(monster_decided);
        let player = world.get_player_position();
        let distance = current_position.distance_to(&player);
        match self.state {
            MonsterState::Passive => {
                if distance < 20 {
                    self.state = MonsterState::Aggressive;
                } else {
                    return self.walk_random(current_position, world, rng);
                }
            },
            MonsterState::Aggressive => {},
        }
        self.pursue(current_position, world, rng, find_path)
    }

    /// The aggressive part of `act`: bump the player when next to it,
    /// otherwise plan (when the player is closer than 4 steps, or there is
    /// no path left) and go on along the path.
    #[verifier::rlimit(60)]
    pub fn pursue<F>(&mut self, current_position: &Point, world: &World, rng: &mut RandomSource, find_path: &F) -> (r:
        Option<Action>) where F: Fn(Point, Point) -> Option<Vec<Point>>
        requires
            world.wf(),
            old(self).state == MonsterState::Aggressive,
            forall|a: Point, b: Point| find_path.requires((a, b)),
        ensures
            r matches Some(a) && monster_action_sound(*world, *current_position, a),
            final(self).state == MonsterState::Aggressive,
            pursued(old(self).path@, old(self).stuck_on_path_count, *final(self), *world, *current_position, *old(rng), *final(rng), r),
            consulted(*find_path, *old(self), *final(self), *world, *current_position, *old(rng), *final(rng), r),
    {
        reveal(pursued);
        let ghost rng0 = *rng;
        let ghost b = *self;
        let player = world.get_player_position();
        let distance = current_position.distance_to(&player);
        if current_position.is_adjacent_to(&player) && world.is_bumpable(&player, true) {
            return Some(Action::make_bump_action(&player));
        }
        if distance < 4 {
            self.path.clear();
        }
        let ghost asked = self.path@.len() == 0;
        let ghost mut found_g: Option<Vec<Point>> = None;
        if !self.has_path() {
            let found = find_path(*current_position, player);
            proof {
                found_g = found;
            }
            self.take_path(found, world, current_position, &player);
        }
        let ghost m = *self;
        let r = self.follow(current_position, world, rng);
        proof {
            reveal(pursued);
            lemma_followed_sound(m.path@, m.stuck_on_path_count, *self, *world, *current_position, rng0, *rng, r);
            let pos = *current_position;
            let c0 = b.stuck_on_path_count;
            if asked {
                assert(recorded(c0, m.path@, m.stuck_on_path_count, *world, pos, player)) by {
                    reveal(recorded);
                }
                assert(find_path.ensures((pos, player), found_g));
                assert(m.path@ == taken_path(found_g, *world, pos, player));
                assert(m.stuck_on_path_count == taken_count(found_g, c0, *world, pos, player));
            }
        }
        r
    }

    /// Goes on along the path: the next step if there is one; else a random
    /// step once more than two searches have failed, else waiting.
    pub fn follow(&mut self, current_position: &Point, world: &World, rng: &mut RandomSource) -> (r: Option<Action>)
        requires
            world.wf(),
        ensures
            followed(old(self).path@, old(self).stuck_on_path_count, *final(self), *world, *current_position, *old(rng), *final(rng), r),
            final(self).state == old(self).state,
    {
        reveal(followed);
        if self.has_path() {
            let p = self.path.remove(0);
            Some(self.step_to(&p, world))
        } else if self.stuck_on_path_count > 2 {
            self.path.clear();
            self.walk_random(current_position, world, rng)
        } else {
            Some(Action::make_wait_action())
        }
    }
}

impl GeneratorBrain {
    /// Spawns a monster on a random neighbour that can be entered, else waits.
    pub fn act(&self, current_position: &Point, world: &World, rng: &mut RandomSource) -> (r: Option<Action>)
        requires
            world.wf(),
        ensures
            r == Some(spawn_choice(*world, *current_position, old(rng).peek())),
            *final(rng) == old(rng).advance(),
    {
        let spawn_position = current_position.translated(&Direction::random_direction(rng));
        if world.is_walkable(&spawn_position) {
            Some(Action::make_spawn_action(&spawn_position))
        } else {
            Some(Action::make_wait_action())
        }
    }
}

impl NoBrain {
    /// Items never act.
    pub fn act(&self) -> (r: Option<Action>)
        ensures
            r is None,
    {
        None
    }
}

/// Whether a generator that draws `v` spawns this round: one draw in ten.
pub open spec fn generator_fires(v: u64) -> bool {
    v % 10 == 1
}

impl Brain {
    /// Whether `think` draws a random value.
    pub open spec fn draws(&self) -> bool {
        self is Generator
    }

    /// What `think` answers when the next random value is `v`.
    pub open spec fn wants_to_act(&self, v: u64) -> bool {
        match self {
            Brain::Player(_) => true,
            Brain::Monster(_) => true,
            Brain::Generator(_) => generator_fires(v),
            Brain::Inert(_) => false,
        }
    }

    /// Decides the action of an actor standing at `current_position`.
    /// Only the player's brain reads `key` or changes the world, and then
    /// only the player's state and the messages.
    pub fn act<F>(&mut self, current_position: &Point, key: Option<KeyCode>, world: &mut World, rng: &mut RandomSource, find_path: &F) -> (r:
        Option<Action>) where F: Fn(Point, Point) -> Option<Vec<Point>>
        requires
            old(world).wf(),
            forall|a: Point, b: Point| find_path.requires((a, b)),
        ensures
            final(world).wf(),
            same_map(*old(world), *final(world)),
            decided(*old(self), *final(self), *old(world), *final(world), *current_position, key, *old(rng), *final(rng), r),
            *old(self) is Player ==> *final(self) == *old(self),
            *old(self) is Generator ==> *final(self) == *old(self),
            *old(self) is Inert ==> *final(self) == *old(self),
            *old(self) is Monster ==> consulted(
                *find_path,
                old(self)->Monster_0,
                final(self)->Monster_0,
                *old(world),
                *current_position,
                *old(rng),
                *final(rng),
                r,
            ),
            *old(self) is Monster ==> *final(self) is Monster && monster_decided(
                old(self)->Monster_0,
                final(self)->Monster_0,
                *old(world),
                *current_position,
                *old(rng),
                *final(rng),
                r,
            ),
    {
        reveal(decided);
        match self {
            Brain::Player(b) => b.act(current_position, key, world),
            Brain::Monster(b) => b.act(current_position, world, rng, find_path),
            Brain::Generator(b) => b.act(current_position, world, rng),
            Brain::Inert(b) => b.act(),
        }
    }

    /// Whether the actor wants to act this round.
    pub fn think(&self, rng: &mut RandomSource) -> (r: bool)
        ensures
            r == self.wants_to_act(old(rng).peek()),
            *final(rng) == if self.draws() {
                old(rng).advance()
            } else {
                *old(rng)
            },
    {
        match self {
            Brain::Player(_) => true,
            Brain::Monster(_) => true,
            Brain::Generator(_) => rng.next_u64() % 10 == 1,
            Brain::Inert(_) => false,
        }
    }
}

/// Anything placed on the map, the player included.
pub struct Actor {
    pub position: Point,
    pub glyph: char,
    pub color: Color,
    pub name: String,
    pub is_player: bool,
    pub is_solid: bool,
    pub health: i64,
    pub brain: Brain,
}

/// An actor is alive while its health is positive.
pub open spec fn alive(a: Actor) -> bool {
    a.health > 0
}

impl Actor {
    pub fn player() -> (a: Actor)
        ensures
            a.position == (Point { x: 0, y: 0 }),
            a.glyph == '@',
            a.color == (Color { r: 255, g: 0, b: 0 }),
            a.name@ == "Player"@,
            a.is_player,
            a.is_solid,
            a.health == 10,
            a.brain is Player,
    {
        Actor {
            position: Point::new(0, 0),
            glyph: '@',
            color: Color::red(),
            name: "Player".to_owned(),
            is_player: true,
            is_solid: true,
            health: 10,
            brain: Brain::Player(PlayerBrain::new()),
        }
    }

    pub fn kobold() -> (a: Actor)
        ensures
            a.position == (Point { x: 0, y: 0 }),
            a.glyph == 'k',
            a.color == (Color { r: 0, g: 255, b: 0 }),
            a.name@ == "Kobold"@,
            !a.is_player,
            a.is_solid,
            a.health == 2,
            a.brain matches Brain::Monster(m) && m.state == MonsterState::Passive && m.path@.len()
                == 0 && m.stuck_on_path_count == 0,
    {
        Actor {
            position: Point::new(0, 0),
            glyph: 'k',
            color: Color::green(),
            name: "Kobold".to_owned(),
            is_player: false,
            is_solid: true,
            health: 2,
            brain: Brain::Monster(MonsterBrain::new()),
        }
    }

    pub fn kobold_generator() -> (a: Actor)
        ensures
            a.position == (Point { x: 0, y: 0 }),
            a.glyph == 'G',
            a.color == (Color { r: 160, g: 32, b: 240 }),
            a.name@ == "Kobold generator"@,
            !a.is_player,
            a.is_solid,
            a.health == 5,
            a.brain is Generator,
    {
        Actor {
            position: Point::new(0, 0),
            glyph: 'G',
            color: Color::purple(),
            name: "Kobold generator".to_owned(),
            is_player: false,
            is_solid: true,
            health: 5,
            brain: Brain::Generator(GeneratorBrain::new()),
        }
    }

    pub fn ammo_crate() -> (a: Actor)
        ensures
            a.position == (Point { x: 0, y: 0 }),
            a.glyph == '*',
            a.color == (Color { r: 0, g: 102, b: 204 }),
            a.name@ == "Ammo crate"@,
            !a.is_player,
            !a.is_solid,
            a.health == 1,
            a.brain is Inert,
    {
        Actor {
            position: Point::new(0, 0),
            glyph: '*',
            color: Color::light_blue(),
            name: "Ammo crate".to_owned(),
            is_player: false,
            is_solid: false,
            health: 1,
            brain: Brain::Inert(NoBrain::new()),
        }
    }

    pub fn get_position(&self) -> (r: &Point)
        ensures
            *r == self.position,
    {
        &self.position
    }

    pub fn set_position(&mut self, position: Point)
        ensures
            final(self).position == position,
            final(self).glyph == old(self).glyph,
            final(self).color == old(self).color,
            final(self).name == old(self).name,
            final(self).is_player == old(self).is_player,
            final(self).is_solid == old(self).is_solid,
            final(self).health == old(self).health,
            final(self).brain == old(self).brain,
    {
        self.position.x = position.x;
        self.position.y = position.y;
    }

    /// Takes `damage` off the health.
    pub fn damaged(&mut self, damage: i64)
        requires
            i64::MIN <= old(self).health - damage <= i64::MAX,
        ensures
            final(self).health == old(self).health - damage,
            final(self).position == old(self).position,
            final(self).glyph == old(self).glyph,
            final(self).color == old(self).color,
            final(self).name == old(self).name,
            final(self).is_player == old(self).is_player,
            final(self).is_solid == old(self).is_solid,
            final(self).brain == old(self).brain,
    {
        self.health = self.health - damage;
    }

    /// Lets the brain decide, for an actor held outside the world.
    pub fn act<F>(&mut self, key: Option<KeyCode>, world: &mut World, rng: &mut RandomSource, find_path: &F) -> (r:
        Option<Action>) where F: Fn(Point, Point) -> Option<Vec<Point>>
        requires
            old(world).wf(),
            forall|a: Point, b: Point| find_path.requires((a, b)),
        ensures
            final(world).wf(),
            same_map(*old(world), *final(world)),
            final(self).position == old(self).position,
            decided(old(self).brain, final(self).brain, *old(world), *final(world), old(self).position, key, *old(rng), *final(rng), r),
            old(self).brain is Monster ==> consulted(
                *find_path,
                old(self).brain->Monster_0,
                final(self).brain->Monster_0,
                *old(world),
                old(self).position,
                *old(rng),
                *final(rng),
                r,
            ),
    {
        reveal(decided);
        self.brain.act(&self.position, key, world, rng, find_path)
    }

    pub fn is_alive(&self) -> (r: bool)
        ensures
            r == alive(*self),
    {
        self.health > 0
    }
}

} // verus!
