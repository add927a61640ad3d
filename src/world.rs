use vstd::prelude::*;

use crate::actor::{alive, Actor};
use crate::util::Point;

verus! {

/// The terrain of a cell.
#[derive(Clone, Copy, PartialEq, Eq, Structural, Debug)]
pub enum CellType {
    Wall,
    Floor,
}

/// One square of the map: its terrain and the index, in the world's actor
/// list, of the actor standing on it.
#[derive(Clone, Copy, PartialEq, Eq, Structural, Debug)]
pub struct Cell {
    pub cell_type: CellType,
    pub actor: Option<usize>,
}

/// The glyph that shows a terrain.
pub open spec fn terrain_glyph(t: CellType) -> char {
    match t {
        CellType::Wall => '#',
        CellType::Floor => '.',
    }
}

/// A cell can be entered: it is floor, and empty or held by a non-solid actor.
pub open spec fn cell_walkable(c: Cell, actors: Seq<Actor>) -> bool {
    c.cell_type == CellType::Floor && match c.actor {
        None => true,
        Some(k) => !actors[k as int].is_solid,
    }
}

/// `g` with the occupant of the cell at `p` replaced by `o`.
pub open spec fn put(g: Seq<Seq<Cell>>, p: Point, o: Option<usize>) -> Seq<Seq<Cell>> {
    g.update(
        p.y as int,
        g[p.y as int].update(p.x as int, Cell { cell_type: g[p.y as int][p.x as int].cell_type, actor: o }),
    )
}

/// The messages kept after `m` is logged: the oldest goes once more than
/// three are held.
pub open spec fn capped(log: Seq<Seq<char>>) -> Seq<Seq<char>> {
    if log.len() > 3 {
        log.drop_first()
    } else {
        log
    }
}


/// The actors that the sweep keeps: the player, and every live actor.
pub open spec fn kept(actors: Seq<Actor>, j: int) -> bool {
    j == 0 || alive(actors[j])
}

/// `c` with its occupant renumbered by `remap`.
pub open spec fn renumbered(c: Cell, remap: Seq<usize>) -> Cell {
    match c.actor {
        Some(j) => Cell { cell_type: c.cell_type, actor: Some(remap[j as int]) },
        None => c,
    }
}


/// The terrain that a cave grid entry stands for: 1 is wall, anything else floor.
pub open spec fn terrain_of(v: u8) -> CellType {
    if v == 1 {
        CellType::Wall
    } else {
        CellType::Floor
    }
}

/// The actors from index `i` on that the sweep keeps, in order.
pub open spec fn survivors_from(s: Seq<Actor>, i: int) -> Seq<Actor>
    decreases s.len() - i,
{
    if i < 0 || i >= s.len() {
        Seq::empty()
    } else {
        (if kept(s, i) {
            seq![s[i]]
        } else {
            Seq::empty()
        }) + survivors_from(s, i + 1)
    }
}

/// How many of the first `j` actors the sweep keeps: the new index of a
/// kept actor that stood at `j`.
pub open spec fn kept_count(s: Seq<Actor>, j: int) -> int
    decreases j,
{
    if j <= 0 {
        0
    } else {
        kept_count(s, j - 1) + if kept(s, j - 1) {
            1int
        } else {
            0int
        }
    }
}

/// `c` with its occupant given the index it has after the sweep.
pub open spec fn after_sweep(c: Cell, s: Seq<Actor>) -> Cell {
    match c.actor {
        Some(j) => Cell { cell_type: c.cell_type, actor: Some(kept_count(s, j as int) as usize) },
        None => c,
    }
}

/// The ready queue `q` after the sweep: the actors that stay, renumbered.
pub open spec fn queue_after_sweep(s: Seq<Actor>, q: Seq<usize>) -> Seq<usize>
    decreases q.len(),
{
    if q.len() == 0 {
        Seq::empty()
    } else {
        (if kept(s, q[0] as int) {
            seq![kept_count(s, q[0] as int) as usize]
        } else {
            Seq::empty()
        }) + queue_after_sweep(s, q.drop_first())
    }
}

impl Cell {
    pub fn new(cell_type: CellType) -> (c: Cell)
        ensures
            c.cell_type == cell_type,
            c.actor is None,
    {
        Cell { cell_type, actor: None }
    }

    pub fn get_glyph(&self) -> (r: char)
        ensures
            r == terrain_glyph(self.cell_type),
    {
        match self.cell_type {
            CellType::Wall => '#',
            CellType::Floor => '.',
        }
    }

    /// Whether the cell can be entered, given the actors that occupants refer to.
    pub fn is_walkable(&self, actors: &Vec<Actor>) -> (r: bool)
        requires
            self.actor matches Some(k) ==> k < actors@.len(),
        ensures
            r == cell_walkable(*self, actors@),
    {
        match self.cell_type {
            CellType::Floor => match self.actor {
                Some(k) => !actors[k].is_solid,
                None => true,
            },
            CellType::Wall => false,
        }
    }
}

/// What the player has gathered: ammunition, kills, and whether the next
/// direction key fires instead of walking.
#[derive(Clone, Copy, PartialEq, Eq, Structural, Debug)]
pub struct PlayerState {
    pub ammo: u32,
    pub kills: u32,
    pub is_aiming: bool,
}

impl PlayerState {
    pub fn reset(&mut self)
        ensures
            *final(self) == (PlayerState { ammo: 0, kills: 0, is_aiming: false }),
    {
        self.ammo = 0;
        self.kills = 0;
        self.is_aiming = false;
    }

    pub fn toggle_aiming(&mut self)
        ensures
            *final(self) == (PlayerState { is_aiming: !old(self).is_aiming, ..*old(self) }),
    {
        self.is_aiming = !self.is_aiming;
    }
}

/// The whole simulation: the map, the actors (the player first), the
/// player's state, the actors still to act this round, and the last messages.
pub struct World {
    pub width: usize,
    pub height: usize,
    /// Rows of cells: `grid[y][x]`.
    pub grid: Vec<Vec<Cell>>,
    pub actors: Vec<Actor>,
    pub player_state: PlayerState,
    /// Indices into `actors` of those that still act this round, in order.
    pub to_act: Vec<usize>,
    pub messages: Vec<String>,
}

impl World {
    /// The grid as rows of cells.
    pub open spec fn cells(&self) -> Seq<Seq<Cell>> {
        self.grid@.map_values(|r: Vec<Cell>| r@)
    }

    /// The message log as character sequences, oldest first.
    pub open spec fn log(&self) -> Seq<Seq<char>> {
        self.messages@.map_values(|s: String| s@)
    }

    pub open spec fn in_bounds(&self, p: Point) -> bool {
        p.x < self.width && p.y < self.height
    }

    pub open spec fn cell(&self, p: Point) -> Cell {
        self.cells()[p.y as int][p.x as int]
    }

    pub open spec fn walkable(&self, p: Point) -> bool {
        self.in_bounds(p) && cell_walkable(self.cell(p), self.actors@)
    }

    pub open spec fn bumpable(&self, p: Point, only_player: bool) -> bool {
        self.in_bounds(p) && self.cell(p).actor is Some && (only_player
            ==> self.actors@[self.cell(p).actor->0 as int].is_player)
    }

    pub open spec fn player_position(&self) -> Point {
        self.actors@[0].position
    }

    /// The grid has `height` rows of `width` cells.
    pub open spec fn shaped(&self) -> bool {
        &&& self.width > 0
        &&& self.height > 0
        &&& self.cells().len() == self.height
        &&& forall|y: int| 0 <= y < self.height ==> (#[trigger] self.cells()[y]).len() == self.width
    }

    /// The player is first, with the player's brain, and alone of its kind;
    /// every actor stands inside the map.
    pub open spec fn actors_placed(&self) -> bool {
        &&& self.actors@.len() > 0
        &&& self.actors@[0].is_player
        &&& self.actors@[0].brain is Player
        &&& forall|k: int| 0 < k < self.actors@.len() ==> !(#[trigger] self.actors@[k]).is_player
        &&& forall|k: int|
            0 <= k < self.actors@.len() ==> self.in_bounds((#[trigger] self.actors@[k]).position)
    }

    /// Every live actor is the occupant of the cell at its position.
    pub open spec fn live_actors_on_map(&self) -> bool {
        forall|k: int|
            0 <= k < self.actors@.len() && alive(#[trigger] self.actors@[k]) ==> {
                let c = self.cell(self.actors@[k].position);
                c.actor is Some && c.actor->0 == k
            }
    }

    /// Every occupant is an actor standing at that cell, and alive, but
    /// perhaps at `hole`, where one may have just died.
    pub open spec fn occupants_match(&self, hole: Option<Point>) -> bool {
        forall|x: int, y: int|
            0 <= x < self.width && 0 <= y < self.height && (#[trigger] self.cells()[y][x]).actor
                is Some ==> {
                let k = self.cells()[y][x].actor->0 as int;
                &&& k < self.actors@.len()
                &&& self.actors@[k].position == (Point { x: x as usize, y: y as usize })
                &&& (alive(self.actors@[k]) || hole == Some(Point { x: x as usize, y: y as usize }))
            }
    }

    /// The ready queue names actors of the list, each at most once and in
    /// list order.
    pub open spec fn queue_ok(&self) -> bool {
        &&& forall|i: int| 0 <= i < self.to_act@.len() ==> #[trigger] self.to_act@[i] < self.actors@.len()
        &&& forall|i: int, j: int|
            0 <= i < j < self.to_act@.len() ==> #[trigger] self.to_act@[i] < #[trigger] self.to_act@[j]
    }

    /// The invariants, except that the occupant at `hole` may be dead.
    pub open spec fn wf_hole(&self, hole: Option<Point>) -> bool {
        &&& self.shaped()
        &&& self.actors_placed()
        &&& self.live_actors_on_map()
        &&& self.occupants_match(hole)
        &&& self.queue_ok()
        &&& self.messages@.len() <= 3
    }

    /// No actor but the player is dead.
    pub open spec fn swept(&self) -> bool {
        forall|k: int| 0 < k < self.actors@.len() ==> alive(#[trigger] self.actors@[k])
    }

    /// The player is the next to act: a new round is due, or the player
    /// heads the ready queue.
    pub open spec fn player_next(&self) -> bool {
        self.to_act@.len() == 0 || self.to_act@[0] == 0
    }

    /// The invariants of the world.
    pub open spec fn wf(&self) -> bool {
        self.wf_hole(None)
    }

    /// A world of `width` by `height` floor cells holding a fresh player at
    /// the origin.
    pub fn new(width: usize, height: usize) -> (w: World)
        requires
            width > 0,
            height > 0,
        ensures
            w.wf(),
            w.width == width,
            w.height == height,
            forall|x: int, y: int|
                0 <= x < width && 0 <= y < height ==> (#[trigger] w.cells()[y][x]).cell_type
                    == CellType::Floor,
            w.actors@.len() == 1,
            w.actors@[0].position == (Point { x: 0, y: 0 }),
            w.actors@[0].name@ == "Player"@,
            w.actors@[0].health == 10,
            w.actors@[0].is_solid,
            w.actors@[0].brain is Player,
            w.player_state == (PlayerState { ammo: 0, kills: 0, is_aiming: false }),
            w.to_act@.len() == 0,
            w.messages@.len() == 0,
    {
        let mut grid: Vec<Vec<Cell>> = Vec::new();
        let mut y: usize = 0;
        while y < height
            invariant
                y <= height,
                grid@.len() == y,
                forall|j: int|
                    0 <= j < y ==> (#[trigger] grid@[j])@.len() == width && forall|i: int|
                        0 <= i < width ==> grid@[j]@[i] == (Cell {
                            cell_type: CellType::Floor,
                            actor: if i == 0 && j == 0 {
                                Some(0usize)
                            } else {
                                None
                            },
                        }),
            decreases height - y,
        {
            let mut row: Vec<Cell> = Vec::new();
            let mut x: usize = 0;
            while x < width
                invariant
                    x <= width,
                    y < height,
                    row@.len() == x,
                    forall|i: int|
                        0 <= i < x ==> #[trigger] row@[i] == (Cell {
                            cell_type: CellType::Floor,
                            actor: if i == 0 && y == 0 {
                                Some(0usize)
                            } else {
                                None
                            },
                        }),
                decreases width - x,
            {
                if x == 0 && y == 0 {
                    row.push(Cell { cell_type: CellType::Floor, actor: Some(0) });
                } else {
                    row.push(Cell::new(CellType::Floor));
                }
                x = x + 1;
            }
            grid.push(row);
            y = y + 1;
        }
        let mut actors: Vec<Actor> = Vec::new();
        actors.push(Actor::player());
        let w = World {
            width,
            height,
            grid,
            actors,
            player_state: PlayerState { ammo: 0, kills: 0, is_aiming: false },
            to_act: Vec::new(),
            messages: Vec::new(),
        };
        assert(w.cells()[0][0].actor == Some(0usize));
        w
    }


    /// The occupant of the cell at `p`.
    pub fn occupant_at(&self, p: &Point) -> (r: Option<usize>)
        requires
            self.shaped(),
            self.in_bounds(*p),
        ensures
            r == self.cell(*p).actor,
    {
        self.get_cell(p.x, p.y).actor
    }

    /// Writes the occupant slot of the cell at `p`; nothing else changes.
    fn set_occupant(&mut self, p: Point, o: Option<usize>)
        requires
            old(self).shaped(),
            old(self).in_bounds(p),
        ensures
            final(self).cells() == put(old(self).cells(), p, o),
            final(self).shaped(),
            final(self).width == old(self).width,
            final(self).height == old(self).height,
            final(self).actors == old(self).actors,
            final(self).player_state == old(self).player_state,
            final(self).to_act == old(self).to_act,
            final(self).messages == old(self).messages,
    {
        assert(self.cells()[p.y as int].len() == self.width);
        let ghost g = self.cells();
        self.grid[p.y][p.x].actor = o;
        assert(self.cells() =~~= put(g, p, o));
        assert forall|y: int| 0 <= y < self.height implies (#[trigger] self.cells()[y]).len()
            == self.width by {
            assert(g[y].len() == self.width);
        }
    }

    /// Moves the live actor `k` to `position`, which is empty or already
    /// its own: the old cell is cleared and the new one set.
    pub fn set_actor_position(&mut self, k: usize, position: &Point)
        requires
            old(self).wf(),
            k < old(self).actors@.len(),
            alive(old(self).actors@[k as int]),
            old(self).in_bounds(*position),
            old(self).cell(*position).actor matches Some(o) ==> o == k,
        ensures
            final(self).wf(),
            final(self).cells() == put(
                put(old(self).cells(), old(self).actors@[k as int].position, None),
                *position,
                Some(k),
            ),
            final(self).actors@ == old(self).actors@.update(
                k as int,
                Actor { position: *position, ..old(self).actors@[k as int] },
            ),
            final(self).width == old(self).width,
            final(self).height == old(self).height,
            final(self).player_state == old(self).player_state,
            final(self).to_act == old(self).to_act,
            final(self).messages == old(self).messages,
    {
        let current = self.actors[k].position;
        self.set_occupant(current, None);
        self.set_occupant(*position, Some(k));
        self.actors[k].position = *position;
        assert(self.actors@ =~= old(self).actors@.update(
            k as int,
            Actor { position: *position, ..old(self).actors@[k as int] },
        ));
        let ghost o = *old(self);
        assert(self.actors_placed());
        assert forall|j: int|
            0 <= j < self.actors@.len() && alive(#[trigger] self.actors@[j]) implies {
            let c = self.cell(self.actors@[j].position);
            c.actor is Some && c.actor->0 == j
        } by {
            let pk = o.actors@[k as int].position;
            assert(o.cells()[pk.y as int][pk.x as int].actor == Some(k));
            if j != k {
                let pj = o.actors@[j].position;
                assert(o.actors@[j] == self.actors@[j]);
                assert(o.cells()[pj.y as int][pj.x as int].actor->0 == j);
                assert(pj != pk);
                assert(pj != *position);
                assert(self.cells()[pj.y as int][pj.x as int] == o.cells()[pj.y as int][pj.x as int]);
            }
        }
        assert forall|x: int, y: int|
            0 <= x < self.width && 0 <= y < self.height && (#[trigger] self.cells()[y][x]).actor
                is Some implies {
            let j = self.cells()[y][x].actor->0 as int;
            &&& j < self.actors@.len()
            &&& self.actors@[j].position == (Point { x: x as usize, y: y as usize })
            &&& alive(self.actors@[j])
        } by {
            assert(o.cells()[y][x] == o.cells()[y][x]);
        }
        assert(self.occupants_match(None));
    }


    /// Places `actor` at the empty cell `position` and appends it to the list;
    /// returns its index.
    pub fn add_actor(&mut self, actor: Actor, position: Point) -> (k: usize)
        requires
            old(self).wf(),
            old(self).in_bounds(position),
            old(self).cell(position).actor is None,
            !actor.is_player,
            alive(actor),
        ensures
            final(self).wf(),
            k == old(self).actors@.len(),
            final(self).actors@ == old(self).actors@.push(Actor { position, ..actor }),
            final(self).cells() == put(old(self).cells(), position, Some(k)),
            final(self).width == old(self).width,
            final(self).height == old(self).height,
            final(self).player_state == old(self).player_state,
            final(self).to_act == old(self).to_act,
            final(self).messages == old(self).messages,
    {
        let mut actor = actor;
        actor.position = position;
        let k = self.actors.len();
        self.set_occupant(position, Some(k));
        self.actors.push(actor);
        let ghost o = *old(self);
        assert(self.actors_placed());
        assert forall|j: int|
            0 <= j < self.actors@.len() && alive(#[trigger] self.actors@[j]) implies {
            let c = self.cell(self.actors@[j].position);
            c.actor is Some && c.actor->0 == j
        } by {
            if j != k {
                let pj = o.actors@[j].position;
                assert(o.actors@[j] == self.actors@[j]);
                assert(o.cells()[pj.y as int][pj.x as int].actor->0 == j);
                assert(pj != position);
            }
        }
        assert forall|x: int, y: int|
            0 <= x < self.width && 0 <= y < self.height && (#[trigger] self.cells()[y][x]).actor
                is Some implies {
            let j = self.cells()[y][x].actor->0 as int;
            &&& j < self.actors@.len()
            &&& self.actors@[j].position == (Point { x: x as usize, y: y as usize })
            &&& alive(self.actors@[j])
        } by {
            assert(o.cells()[y][x] == o.cells()[y][x]);
        }
        assert(self.occupants_match(None));
        k
    }

    /// Clears the cell at `position`, whose occupant, if any, has just died.
    pub fn remove_actor(&mut self, position: &Point)
        requires
            old(self).wf_hole(Some(*position)),
            old(self).in_bounds(*position),
            old(self).cell(*position).actor matches Some(j) ==> !alive(old(self).actors@[j as int]),
        ensures
            final(self).wf(),
            final(self).cells() == put(old(self).cells(), *position, None),
            final(self).width == old(self).width,
            final(self).height == old(self).height,
            final(self).actors == old(self).actors,
            final(self).player_state == old(self).player_state,
            final(self).to_act == old(self).to_act,
            final(self).messages == old(self).messages,
    {
        self.set_occupant(*position, None);
        let ghost o = *old(self);
        assert forall|j: int|
            0 <= j < self.actors@.len() && alive(#[trigger] self.actors@[j]) implies {
            let c = self.cell(self.actors@[j].position);
            c.actor is Some && c.actor->0 == j
        } by {
            let pj = o.actors@[j].position;
            assert(o.cells()[pj.y as int][pj.x as int].actor->0 == j);
            assert(pj != *position);
        }
        assert forall|x: int, y: int|
            0 <= x < self.width && 0 <= y < self.height && (#[trigger] self.cells()[y][x]).actor
                is Some implies {
            let j = self.cells()[y][x].actor->0 as int;
            &&& j < self.actors@.len()
            &&& self.actors@[j].position == (Point { x: x as usize, y: y as usize })
            &&& alive(self.actors@[j])
        } by {
            assert(o.cells()[y][x] == o.cells()[y][x]);
        }
        assert(self.occupants_match(None));
    }

    /// Deals one point of damage to the occupant of the cell at `p`, and
    /// clears the cell if that kills it. Returns whether it died.
    pub fn damage_occupant(&mut self, p: &Point) -> (died: bool)
        requires
            old(self).wf(),
            old(self).in_bounds(*p),
            old(self).cell(*p).actor is Some,
        ensures
            final(self).wf(),
            ({
                let t = old(self).cell(*p).actor->0 as int;
                &&& final(self).actors@ == old(self).actors@.update(
                    t,
                    Actor { health: (old(self).actors@[t].health - 1) as i64, ..old(self).actors@[t] },
                )
                &&& died == (old(self).actors@[t].health <= 1)
            }),
            final(self).cells() == if died {
                put(old(self).cells(), *p, None)
            } else {
                old(self).cells()
            },
            final(self).width == old(self).width,
            final(self).height == old(self).height,
            final(self).player_state == old(self).player_state,
            final(self).to_act == old(self).to_act,
            final(self).messages == old(self).messages,
    {
        let t = self.occupant_at(p).unwrap();
        let ghost o = *old(self);
        assert(o.cells()[p.y as int][p.x as int].actor->0 == t);
        self.actors[t].health = self.actors[t].health - 1;
        assert(self.actors@ =~= o.actors@.update(
            t as int,
            Actor { health: (o.actors@[t as int].health - 1) as i64, ..o.actors@[t as int] },
        ));
        let died = !self.actors[t].is_alive();
        assert(self.actors_placed());
        assert(self.live_actors_on_map());
        assert forall|x: int, y: int|
            0 <= x < self.width && 0 <= y < self.height && (#[trigger] self.cells()[y][x]).actor
                is Some implies {
            let j = self.cells()[y][x].actor->0 as int;
            &&& j < self.actors@.len()
            &&& self.actors@[j].position == (Point { x: x as usize, y: y as usize })
            &&& (alive(self.actors@[j]) || Some(*p) == Some(Point { x: x as usize, y: y as usize }))
        } by {
            assert(o.cells()[y][x] == o.cells()[y][x]);
        }
        assert(self.wf_hole(Some(*p)));
        if died {
            self.remove_actor(p);
        } else {
            assert(self.wf());
        }
        died
    }

    /// Resets the world for a new game: only the player is kept, at full
    /// health, on an otherwise empty map; the player's state is cleared.
    pub fn cleanup(&mut self)
        requires
            old(self).wf(),
        ensures
            final(self).wf(),
            final(self).actors@.len() == 1,
            final(self).actors@[0] == (Actor { health: 10, ..old(self).actors@[0] }),
            final(self).player_state == (PlayerState { ammo: 0, kills: 0, is_aiming: false }),
            final(self).to_act@.len() == 0,
            final(self).width == old(self).width,
            final(self).height == old(self).height,
            final(self).messages == old(self).messages,
            forall|x: int, y: int|
                0 <= x < final(self).width && 0 <= y < final(self).height ==> {
                    &&& (#[trigger] final(self).cells()[y][x]).cell_type == old(self).cells()[y][x].cell_type
                    &&& final(self).cells()[y][x].actor == if x == old(self).actors@[0].position.x
                        && y == old(self).actors@[0].position.y {
                        Some(0usize)
                    } else {
                        None
                    }
                },
    {
        let ghost o = *old(self);
        self.actors.truncate(1);
        self.actors[0].health = 10;
        self.player_state.reset();
        self.to_act.clear();
        assert(self.actors@ =~= seq![Actor { health: 10, ..o.actors@[0] }]);
        let mut y: usize = 0;
        while y < self.height
            invariant
                y <= self.height,
                self.shaped(),
                self.width == o.width,
                self.height == o.height,
                self.actors@ == seq![Actor { health: 10, ..o.actors@[0] }],
                self.player_state == (PlayerState { ammo: 0, kills: 0, is_aiming: false }),
                self.to_act@.len() == 0,
                self.messages == o.messages,
                forall|yy: int, x: int|
                    0 <= yy < self.height && 0 <= x < self.width ==> {
                        &&& (#[trigger] self.cells()[yy][x]).cell_type == o.cells()[yy][x].cell_type
                        &&& (yy < y ==> self.cells()[yy][x].actor is None)
                    },
            decreases self.height - y,
        {
            let mut x: usize = 0;
            while x < self.width
                invariant
                    x <= self.width,
                    y < self.height,
                    self.shaped(),
                    self.width == o.width,
                    self.height == o.height,
                    self.actors@ == seq![Actor { health: 10, ..o.actors@[0] }],
                    self.player_state == (PlayerState { ammo: 0, kills: 0, is_aiming: false }),
                    self.to_act@.len() == 0,
                    self.messages == o.messages,
                    forall|yy: int, xx: int|
                        0 <= yy < self.height && 0 <= xx < self.width ==> {
                            &&& (#[trigger] self.cells()[yy][xx]).cell_type == o.cells()[yy][xx].cell_type
                            &&& ((yy < y || (yy == y && xx < x)) ==> self.cells()[yy][xx].actor is None)
                        },
                decreases self.width - x,
            {
                self.set_occupant(Point { x, y }, None);
                x = x + 1;
            }
            y = y + 1;
        }
        let pp = self.actors[0].position;
        assert(o.in_bounds(o.actors@[0].position));
        self.set_occupant(pp, Some(0));
        assert(self.occupants_match(None));
    }

    /// Removes every dead actor but the player from the list, renumbering
    /// the occupants and the ready queue to match.
    pub fn retain_alive(&mut self)
        requires
            old(self).wf(),
        ensures
            final(self).wf(),
            forall|k: int| 0 < k < final(self).actors@.len() ==> alive(#[trigger] final(self).actors@[k]),
            final(self).actors@[0] == old(self).actors@[0],
            final(self).actors@.len() <= old(self).actors@.len(),
            final(self).to_act@.len() <= old(self).to_act@.len(),
            old(self).to_act@.len() > 0 && old(self).to_act@[0] == 0 ==> final(self).to_act@.len() > 0
                && final(self).to_act@[0] == 0,
            final(self).width == old(self).width,
            final(self).height == old(self).height,
            final(self).player_state == old(self).player_state,
            final(self).messages == old(self).messages,
            forall|x: int, y: int|
                0 <= x < final(self).width && 0 <= y < final(self).height ==> (#[trigger] final(self).cells()[y][x]).cell_type == old(self).cells()[y][x].cell_type,
            final(self).actors@ == survivors_from(old(self).actors@, 0),
            forall|x: int, y: int|
                0 <= x < final(self).width && 0 <= y < final(self).height ==> #[trigger] final(self).cells()[y][x]
                    == after_sweep(old(self).cells()[y][x], old(self).actors@),
            final(self).to_act@ == queue_after_sweep(old(self).actors@, old(self).to_act@),
            old(self).swept() ==> {
                &&& final(self).actors@ == old(self).actors@
                &&& final(self).cells() == old(self).cells()
                &&& final(self).to_act@ == old(self).to_act@
            },
    {
        let ghost o = *self;
        let mut rest: Vec<Actor> = Vec::new();
        std::mem::swap(&mut rest, &mut self.actors);
        let n = rest.len();
        let mut kept_actors: Vec<Actor> = Vec::new();
        let mut remap: Vec<usize> = Vec::new();
        let ghost mut src: Seq<int> = Seq::empty();
        let mut k: usize = 0;
        while k < n
            invariant
                n == o.actors@.len(),
                k <= n,
                rest@ == o.actors@.subrange(k as int, n as int),
                remap@.len() == k,
                src.len() == kept_actors@.len(),
                kept_actors@.len() <= k,
                forall|i: int|
                    0 <= i < src.len() ==> 0 <= #[trigger] src[i] < k && kept_actors@[i] == o.actors@[src[i]]
                        && remap@[src[i]] == i && kept(o.actors@, src[i]),
                forall|i: int, j: int| 0 <= i < j < src.len() ==> #[trigger] src[i] < #[trigger] src[j],
                forall|j: int|
                    0 <= j < k && kept(o.actors@, j) ==> #[trigger] remap@[j] < kept_actors@.len()
                        && src[remap@[j] as int] == j,
                forall|j: int| 0 <= j < k && !kept(o.actors@, j) ==> #[trigger] remap@[j] == usize::MAX,
                k > 0 ==> src.len() > 0 && src[0] == 0,
                o.swept() ==> src.len() == k && forall|j: int| 0 <= j < k ==> #[trigger] remap@[j] == j,
                kept_actors@ + survivors_from(o.actors@, k as int) == survivors_from(o.actors@, 0),
                kept_actors@.len() == kept_count(o.actors@, k as int),
                forall|j: int| 0 <= j < k && kept(o.actors@, j) ==> #[trigger] remap@[j] == kept_count(o.actors@, j),
            decreases n - k,
        {
            let ghost before = kept_actors@;
            let a = rest.remove(0);
            assert(a == o.actors@[k as int]);
            if k == 0 || a.is_alive() {
                remap.push(kept_actors.len());
                proof {
                    src = src.push(k as int);
                }
                kept_actors.push(a);
                assert(before.push(a) + survivors_from(o.actors@, k + 1) =~= before + (seq![a]
                    + survivors_from(o.actors@, k + 1)));
            } else {
                remap.push(usize::MAX);
                assert(Seq::<Actor>::empty() + survivors_from(o.actors@, k + 1) =~= survivors_from(o.actors@, k + 1));
            }
            k = k + 1;
        }
        assert(kept_actors@ + Seq::<Actor>::empty() =~= kept_actors@);
        self.actors = kept_actors;
        let ghost kept_src = src;
        assert forall|j1: int, j2: int|
            0 <= j1 < j2 < n && kept(o.actors@, j1) && kept(o.actors@, j2) implies #[trigger] remap@[j1]
            < #[trigger] remap@[j2] by {
            if remap@[j1] >= remap@[j2] {
                if remap@[j1] > remap@[j2] {
                    assert(src[remap@[j2] as int] < src[remap@[j1] as int]);
                }
            }
        }
        let mut y: usize = 0;
        while y < self.height
            invariant
                y <= self.height,
                self.shaped(),
                self.width == o.width,
                self.height == o.height,
                remap@.len() == n,
                n == o.actors@.len(),
                o.wf(),
                forall|j: int| 0 <= j < n && kept(o.actors@, j) ==> #[trigger] remap@[j] < self.actors@.len(),
                forall|yy: int, x: int|
                    0 <= yy < self.height && 0 <= x < self.width ==> #[trigger] self.cells()[yy][x] == if yy
                        < y {
                        renumbered(o.cells()[yy][x], remap@)
                    } else {
                        o.cells()[yy][x]
                    },
                self.actors@ == kept_src.map_values(|j: int| o.actors@[j]),
                self.player_state == o.player_state,
                self.to_act == o.to_act,
                self.messages == o.messages,
            decreases self.height - y,
        {
            let mut x: usize = 0;
            while x < self.width
                invariant
                    x <= self.width,
                    y < self.height,
                    self.shaped(),
                    self.width == o.width,
                    self.height == o.height,
                    remap@.len() == n,
                    n == o.actors@.len(),
                    o.wf(),
                    forall|j: int| 0 <= j < n && kept(o.actors@, j) ==> #[trigger] remap@[j] < self.actors@.len(),
                    forall|yy: int, xx: int|
                        0 <= yy < self.height && 0 <= xx < self.width ==> #[trigger] self.cells()[yy][xx]
                            == if yy < y || (yy == y && xx < x) {
                            renumbered(o.cells()[yy][xx], remap@)
                        } else {
                            o.cells()[yy][xx]
                        },
                    self.actors@ == kept_src.map_values(|j: int| o.actors@[j]),
                    self.player_state == o.player_state,
                    self.to_act == o.to_act,
                    self.messages == o.messages,
                decreases self.width - x,
            {
                let p = Point { x, y };
                match self.occupant_at(&p) {
                    Some(j) => {
                        assert(o.cells()[y as int][x as int].actor == Some(j));
                        self.set_occupant(p, Some(remap[j]));
                    },
                    None => {},
                }
                x = x + 1;
            }
            y = y + 1;
        }
        assert(src[0] == 0 && remap@[src[0]] == 0);
        let mut queue: Vec<usize> = Vec::new();
        assert(o.to_act@.subrange(0, o.to_act@.len() as int) =~= o.to_act@);
        assert(queue@ + queue_after_sweep(o.actors@, o.to_act@) =~= queue_after_sweep(o.actors@, o.to_act@));
        let mut i: usize = 0;
        while i < self.to_act.len()
            invariant
                i <= self.to_act@.len(),
                self.to_act == o.to_act,
                o.wf(),
                remap@.len() == n,
                n == o.actors@.len(),
                forall|j: int| 0 <= j < n && kept(o.actors@, j) ==> #[trigger] remap@[j] < self.actors@.len(),
                forall|j1: int, j2: int|
                    0 <= j1 < j2 < n && kept(o.actors@, j1) && kept(o.actors@, j2) ==> #[trigger] remap@[j1]
                        < #[trigger] remap@[j2],
                forall|j: int| 0 <= j < n && !kept(o.actors@, j) ==> #[trigger] remap@[j] == usize::MAX,
                queue@.len() <= i,
                forall|a: int| 0 <= a < queue@.len() ==> #[trigger] queue@[a] < self.actors@.len(),
                forall|a: int, b: int| 0 <= a < b < queue@.len() ==> #[trigger] queue@[a] < #[trigger] queue@[b],
                forall|a: int, m: int|
                    0 <= a < queue@.len() && i <= m < o.to_act@.len() && kept(o.actors@, o.to_act@[m] as int)
                        ==> #[trigger] queue@[a] < remap@[#[trigger] o.to_act@[m] as int],
                remap@[0] == 0,
                o.swept() ==> forall|j: int| 0 <= j < n ==> #[trigger] remap@[j] == j,
                o.swept() ==> queue@ == o.to_act@.subrange(0, i as int),
                forall|j: int| 0 <= j < n && kept(o.actors@, j) ==> #[trigger] remap@[j] == kept_count(o.actors@, j),
                queue@ + queue_after_sweep(o.actors@, o.to_act@.subrange(i as int, o.to_act@.len() as int))
                    == queue_after_sweep(o.actors@, o.to_act@),
                i > 0 && o.to_act@[0] == 0 ==> queue@.len() > 0 && queue@[0] == 0,
                self.actors@.len() > 0,
            decreases self.to_act@.len() - i,
        {
            let t = self.to_act[i];
            let r = remap[t];
            let ghost qb = queue@;
            let ghost sub = o.to_act@.subrange(i as int, o.to_act@.len() as int);
            assert(sub.drop_first() =~= o.to_act@.subrange(i + 1, o.to_act@.len() as int));
            assert(sub[0] == t);
            assert(queue_after_sweep(o.actors@, sub) == (if kept(o.actors@, t as int) {
                seq![kept_count(o.actors@, t as int) as usize]
            } else {
                Seq::<usize>::empty()
            }) + queue_after_sweep(o.actors@, sub.drop_first()));
            let actor_count = self.actors.len();
            assert(kept(o.actors@, t as int) <==> r != usize::MAX);
            if r != usize::MAX {
                assert forall|m: int|
                    i < m < o.to_act@.len() && kept(o.actors@, o.to_act@[m] as int) implies r
                    < remap@[#[trigger] o.to_act@[m] as int] by {
                    assert(o.to_act@[i as int] < o.to_act@[m]);
                }
                queue.push(r);
            }
            proof {
                if o.swept() {
                    assert(kept(o.actors@, t as int));
                    assert(queue@ =~= o.to_act@.subrange(0, i + 1));
                }
                if r != usize::MAX {
                    assert(qb.push(r) + queue_after_sweep(o.actors@, sub.drop_first()) =~= qb + (seq![r]
                        + queue_after_sweep(o.actors@, sub.drop_first())));
                } else {
                    assert(Seq::<usize>::empty() + queue_after_sweep(o.actors@, sub.drop_first())
                        =~= queue_after_sweep(o.actors@, sub.drop_first()));
                }
            }
            i = i + 1;
        }
        self.to_act = queue;
        assert(o.to_act@.subrange(o.to_act@.len() as int, o.to_act@.len() as int) =~= Seq::<usize>::empty());
        assert(self.to_act@ + Seq::<usize>::empty() =~= self.to_act@);
        assert forall|x: int, y: int|
            0 <= x < self.width && 0 <= y < self.height implies #[trigger] self.cells()[y][x] == after_sweep(
            o.cells()[y][x],
            o.actors@,
        ) by {
            assert(self.cells()[y][x] == renumbered(o.cells()[y][x], remap@));
        }
        proof {
            if o.swept() {
                assert(self.to_act@ =~= o.to_act@);
                assert forall|i: int| 0 <= i < n implies kept_src[i] == i by {
                    assert(remap@[i] == i);
                }
                assert(self.actors@ =~= o.actors@);
                assert forall|yy: int| 0 <= yy < self.height implies #[trigger] self.cells()[yy] =~= o.cells()[yy] by {
                    assert forall|xx: int| 0 <= xx < self.width implies self.cells()[yy][xx] == o.cells()[yy][xx] by {
                        assert(self.cells()[yy][xx] == renumbered(o.cells()[yy][xx], remap@));
                    }
                }
                assert(self.cells() =~= o.cells());
            }
        }
        assert(self.actors_placed());
        assert(self.live_actors_on_map());
        assert(self.occupants_match(None));
    }

    /// Lays the terrain of `g` (rows of 0 for floor and 1 for wall) over the
    /// map, keeps only the player, and puts it at `start`.
    pub fn reset_terrain(&mut self, g: &Vec<Vec<u8>>, start: Point)
        requires
            old(self).wf(),
            g@.len() == old(self).height,
            forall|y: int| 0 <= y < old(self).height ==> (#[trigger] g@[y])@.len() == old(self).width,
            old(self).in_bounds(start),
        ensures
            final(self).wf(),
            final(self).width == old(self).width,
            final(self).height == old(self).height,
            final(self).actors@ == seq![Actor { position: start, ..old(self).actors@[0] }],
            final(self).to_act@.len() == 0,
            final(self).player_state == old(self).player_state,
            final(self).messages == old(self).messages,
            forall|x: int, y: int|
                0 <= x < final(self).width && 0 <= y < final(self).height ==> #[trigger] final(self).cells()[y][x]
                    == (Cell {
                    cell_type: terrain_of(g@[y]@[x]),
                    actor: if x == start.x && y == start.y && alive(old(self).actors@[0]) {
                        Some(0usize)
                    } else {
                        None
                    },
                }),
    {
        let ghost o = *self;
        let player_alive = self.actors[0].is_alive();
        self.actors.truncate(1);
        self.actors[0].position = start;
        self.to_act.clear();
        let mut grid: Vec<Vec<Cell>> = Vec::new();
        let mut y: usize = 0;
        while y < self.height
            invariant
                y <= self.height,
                self.height == o.height,
                self.width == o.width,
                g@.len() == o.height,
                forall|yy: int| 0 <= yy < o.height ==> (#[trigger] g@[yy])@.len() == o.width,
                grid@.len() == y,
                forall|j: int|
                    0 <= j < y ==> (#[trigger] grid@[j])@.len() == self.width && forall|i: int|
                        0 <= i < self.width ==> grid@[j]@[i] == (Cell {
                            cell_type: terrain_of(g@[j]@[i]),
                            actor: if i == start.x && j == start.y && player_alive {
                                Some(0usize)
                            } else {
                                None
                            },
                        }),
            decreases self.height - y,
        {
            let mut row: Vec<Cell> = Vec::new();
            let mut x: usize = 0;
            while x < self.width
                invariant
                    x <= self.width,
                    y < self.height,
                    self.height == o.height,
                    self.width == o.width,
                    g@.len() == o.height,
                    forall|yy: int| 0 <= yy < o.height ==> (#[trigger] g@[yy])@.len() == o.width,
                    row@.len() == x,
                    forall|i: int|
                        0 <= i < x ==> #[trigger] row@[i] == (Cell {
                            cell_type: terrain_of(g@[y as int]@[i]),
                            actor: if i == start.x && y == start.y && player_alive {
                                Some(0usize)
                            } else {
                                None
                            },
                        }),
                decreases self.width - x,
            {
                let t = if g[y][x] == 1 {
                    CellType::Wall
                } else {
                    CellType::Floor
                };
                let a = if x == start.x && y == start.y && player_alive {
                    Some(0)
                } else {
                    None
                };
                row.push(Cell { cell_type: t, actor: a });
                x = x + 1;
            }
            grid.push(row);
            y = y + 1;
        }
        self.grid = grid;
        assert(self.actors@ =~= seq![Actor { position: start, ..o.actors@[0] }]);
        assert(self.occupants_match(None));
    }

    /// Whether the player is the next to act, so that a key press would be read.
    pub fn is_player_next(&self) -> (r: bool)
        ensures
            r == self.player_next(),
    {
        self.to_act.len() == 0 || self.to_act[0] == 0
    }

    pub fn is_valid(&self, p: &Point) -> (r: bool)
        ensures
            r == self.in_bounds(*p),
    {
        p.x < self.width && p.y < self.height
    }

    pub fn get_cell(&self, x: usize, y: usize) -> (c: &Cell)
        requires
            self.shaped(),
            x < self.width,
            y < self.height,
        ensures
            *c == self.cells()[y as int][x as int],
    {
        assert(self.cells()[y as int].len() == self.width);
        &self.grid[y][x]
    }

    pub fn is_walkable(&self, p: &Point) -> (r: bool)
        requires
            self.wf(),
        ensures
            r == self.walkable(*p),
    {
        if !self.is_valid(p) {
            return false;
        }
        let c = self.get_cell(p.x, p.y);
        c.is_walkable(&self.actors)
    }

    pub fn is_bumpable(&self, p: &Point, only_bump_player: bool) -> (r: bool)
        requires
            self.wf(),
        ensures
            r == self.bumpable(*p, only_bump_player),
    {
        if !self.is_valid(p) {
            return false;
        }
        let c = self.get_cell(p.x, p.y);
        match c.actor {
            Some(k) => {
                if only_bump_player {
                    self.actors[k].is_player
                } else {
                    true
                }
            },
            None => false,
        }
    }

    pub fn get_player_position(&self) -> (r: Point)
        requires
            self.actors@.len() > 0,
        ensures
            r == self.player_position(),
    {
        self.actors[0].position
    }

    pub fn is_game_over(&self) -> (r: bool)
        requires
            self.actors@.len() > 0,
        ensures
            r == !alive(self.actors@[0]),
    {
        !self.actors[0].is_alive()
    }

    pub fn has_ammo(&self) -> (r: bool)
        ensures
            r == (self.player_state.ammo > 0),
    {
        self.player_state.ammo > 0
    }

    pub fn decrease_ammo(&mut self)
        requires
            old(self).player_state.ammo > 0,
        ensures
            final(self).player_state.ammo == old(self).player_state.ammo - 1,
            final(self).player_state.kills == old(self).player_state.kills,
            final(self).player_state.is_aiming == old(self).player_state.is_aiming,
            final(self).width == old(self).width,
            final(self).height == old(self).height,
            final(self).grid == old(self).grid,
            final(self).actors == old(self).actors,
            final(self).to_act == old(self).to_act,
            final(self).messages == old(self).messages,
    {
        self.player_state.ammo = self.player_state.ammo - 1;
    }

    /// Adds `amount` rounds, saturating at the largest count.
    pub fn increase_ammo(&mut self, amount: u32)
        ensures
            final(self).player_state.ammo == if old(self).player_state.ammo + amount <= u32::MAX {
                old(self).player_state.ammo + amount
            } else {
                u32::MAX as int
            },
            final(self).player_state.kills == old(self).player_state.kills,
            final(self).player_state.is_aiming == old(self).player_state.is_aiming,
            final(self).width == old(self).width,
            final(self).height == old(self).height,
            final(self).grid == old(self).grid,
            final(self).actors == old(self).actors,
            final(self).to_act == old(self).to_act,
            final(self).messages == old(self).messages,
    {
        self.player_state.ammo = self.player_state.ammo.saturating_add(amount);
    }

    /// Counts one more kill, saturating at the largest count.
    pub fn increase_kills(&mut self)
        ensures
            final(self).player_state.kills == if old(self).player_state.kills < u32::MAX {
                old(self).player_state.kills + 1
            } else {
                u32::MAX as int
            },
            final(self).player_state.ammo == old(self).player_state.ammo,
            final(self).player_state.is_aiming == old(self).player_state.is_aiming,
            final(self).width == old(self).width,
            final(self).height == old(self).height,
            final(self).grid == old(self).grid,
            final(self).actors == old(self).actors,
            final(self).to_act == old(self).to_act,
            final(self).messages == old(self).messages,
    {
        self.player_state.kills = self.player_state.kills.saturating_add(1);
    }

    /// Appends a message, dropping the oldest once more than three are held.
    pub fn add_message(&mut self, message: &str)
        requires
            old(self).messages@.len() <= 3,
        ensures
            final(self).log() == capped(old(self).log().push(message@)),
            final(self).messages@.len() <= 3,
            final(self).width == old(self).width,
            final(self).height == old(self).height,
            final(self).grid == old(self).grid,
            final(self).actors == old(self).actors,
            final(self).player_state == old(self).player_state,
            final(self).to_act == old(self).to_act,
    {
        self.messages.push(message.to_owned());
        assert(self.log() =~= old(self).log().push(message@));
        if self.messages.len() > 3 {
            self.messages.remove(0);
            assert(self.log() =~= capped(old(self).log().push(message@)));
        }
    }
}

} // verus!
