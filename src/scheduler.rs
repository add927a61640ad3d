use vstd::prelude::*;

use crate::action::{death_suffix, executed, fresh_kobold, Action};
use crate::actor::{
    alive, decided, followed, key_direction, monster_action_sound, monster_decided, monster_step, player_turn, pursued,
    random_step, recorded, spawn_choice, walk_or_bump, Actor, Brain, MonsterBrain, MonsterState, NoBrain,
    PlayerBrain,
};
use crate::input::KeyCode;
use crate::path::valid_path;
use crate::rng::RandomSource;
use crate::util::{adjacent, manhattan, step, Point};
use crate::world::{after_sweep, capped, put, queue_after_sweep, survivors_from, PlayerState, World};

verus! {

/// What a generator's decision `a` does to `o`, the ready queue aside: a
/// spawn on an empty cell of the map adds a fresh kobold there; anything
/// else leaves the actors and the map as they were.
pub open spec fn spawned(o: World, n: World, a: Action) -> bool {
    &&& n.player_state == o.player_state
    &&& n.messages@ == o.messages@
    &&& match a {
        Action::Spawn(p) if o.in_bounds(p) && o.cell(p).actor is None => {
            &&& n.actors@.len() == o.actors@.len() + 1
            &&& n.actors@.subrange(0, o.actors@.len() as int) == o.actors@
            &&& fresh_kobold(n.actors@[o.actors@.len() as int], p)
            &&& n.cells() == put(o.cells(), p, Some(o.actors@.len() as usize))
        },
        _ => {
            &&& n.actors@ == o.actors@
            &&& n.cells() == o.cells()
        },
    }
}

/// The player's turn on `key` in `o` is a bump on the cell `q`: an arrow
/// key while walking, towards a cell that cannot be entered but holds an
/// occupant.
pub open spec fn player_bumps(o: World, key: Option<KeyCode>, q: Point) -> bool {
    &&& key matches Some(kc) && key_direction(kc) is Some && q == step(o.actors@[0].position, key_direction(kc)->0)
    &&& !o.player_state.is_aiming
    &&& !o.walkable(q)
    &&& o.bumpable(q, false)
}

/// The player's bump on `q` in `o`, the ready queue aside: the occupant of
/// `q` loses a point of health and leaves its cell if that kills it, and
/// "<target> bumped by <player>" is logged, with the death notice.
pub open spec fn player_bumped(o: World, n: World, q: Point) -> bool {
    let t = o.cell(q).actor->0 as int;
    let died = o.actors@[t].health <= 1;
    &&& n.player_state == o.player_state
    &&& n.actors@ == o.actors@.update(t, Actor { health: (o.actors@[t].health - 1) as i64, ..o.actors@[t] })
    &&& n.cells() == if died {
        put(o.cells(), q, None)
    } else {
        o.cells()
    }
    &&& n.log() == capped(o.log().push(o.actors@[t].name@ + " bumped by "@ + o.actors@[0].name@ + death_suffix(o.actors@[t].name@, died)))
}

/// A key that takes no turn from the player: the aim key, or a direction
/// while aiming with no ammunition left.
pub open spec fn idle_key(key: Option<KeyCode>, o: World) -> bool {
    key == Some(KeyCode::ToggleAim) || (key matches Some(kc) && key_direction(kc) is Some
        && o.player_state.is_aiming && o.player_state.ammo == 0)
}

/// What an idle key does: the aim key flips the aim; a direction key with
/// no ammunition logs "Out of ammo!". Nothing else changes.
pub open spec fn idle_effect(o: World, n: World, key: Option<KeyCode>) -> bool {
    if key == Some(KeyCode::ToggleAim) {
        &&& n.player_state == (PlayerState { is_aiming: !o.player_state.is_aiming, ..o.player_state })
        &&& n.messages@ == o.messages@
    } else {
        &&& n.player_state == o.player_state
        &&& n.log() == capped(o.log().push("Out of ammo!"@))
    }
}

/// A tick on an idle key: its effect, and the player still heads the ready
/// queue, so no turn passed. From a swept world (one that a tick left) the
/// actors, the map and the queue stay as they were.
pub open spec fn idle_tick(o: World, n: World, key: Option<KeyCode>) -> bool {
    &&& idle_effect(o, n, key)
    &&& n.to_act@.len() > 0
    &&& n.to_act@[0] == 0
    &&& n.swept()
    &&& o.swept() ==> {
        &&& n.actors@ == o.actors@
        &&& n.cells() == o.cells()
        &&& o.to_act@.len() > 0 ==> n.to_act@ == o.to_act@
    }
}

/// One press of the aim key, as a tick.
pub open spec fn aim_toggled(o: World, n: World) -> bool {
    idle_tick(o, n, Some(KeyCode::ToggleAim))
}

/// `o2` is `o` but for the brains of its actors.
pub open spec fn same_but_brains(o: World, o2: World) -> bool {
    &&& o2.width == o.width
    &&& o2.height == o.height
    &&& o2.cells() == o.cells()
    &&& o2.actors@.len() == o.actors@.len()
    &&& forall|j: int|
        0 <= j < o.actors@.len() ==> #[trigger] o2.actors@[j] == (Actor { brain: o2.actors@[j].brain, ..o.actors@[j] })
}

/// What the brains decide reads no brain: worlds that differ only in their
/// brains agree on which cells can be entered or bumped, and on where the
/// player stands.
proof fn lemma_brains_do_not_matter(o: World, o2: World)
    requires
        o.wf(),
        same_but_brains(o, o2),
    ensures
        forall|q: Point| o2.walkable(q) == o.walkable(q),
        forall|q: Point, f: bool| o2.bumpable(q, f) == o.bumpable(q, f),
        forall|q: Point, f: bool| walk_or_bump(o2, q, f) == walk_or_bump(o, q, f),
        o2.player_position() == o.player_position(),
{
    assert(o2.actors@[0] == (Actor { brain: o2.actors@[0].brain, ..o.actors@[0] }));
    assert forall|q: Point| o2.walkable(q) == o.walkable(q) && (forall|f: bool| o2.bumpable(q, f) == o.bumpable(q, f)) by {
        if o.in_bounds(q) {
            assert(o.cells()[q.y as int][q.x as int] == o.cell(q));
            if o.cell(q).actor is Some {
                let j = o.cell(q).actor->0 as int;
                assert(o2.actors@[j] == (Actor { brain: o2.actors@[j].brain, ..o.actors@[j] }));
            }
        }
    }
}

/// The decision of the live actor `k` of `o`: `r` is what its brain decides,
/// on `key` for the player, drawing from `g0` until `g1`; `mid` is the world
/// once it decided. The player's decision may change the player's state and
/// the messages; a monster's changes its own brain only.
pub open spec fn turn_decision(o: World, mid: World, k: usize, key: Option<KeyCode>, g0: RandomSource, g1: RandomSource, r: Option<Action>) -> bool {
    let b = o.actors@[k as int].brain;
    let pos = o.actors@[k as int].position;
    match b {
        Brain::Player(_) => player_turn(o, mid, pos, key, r) && g1 == g0,
        _ => {
            &&& mid.width == o.width
            &&& mid.height == o.height
            &&& mid.cells() == o.cells()
            &&& mid.player_state == o.player_state
            &&& mid.messages@ == o.messages@
            &&& mid.to_act@ == o.to_act@
            &&& mid.actors@ == o.actors@.update(k as int, Actor { brain: mid.actors@[k as int].brain, ..o.actors@[k as int] })
            &&& match b {
                Brain::Monster(m0) => {
                    &&& r matches Some(a) && monster_action_sound(o, pos, a)
                    &&& mid.actors@[k as int].brain is Monster
                    &&& monster_decided(m0, mid.actors@[k as int].brain->Monster_0, o, pos, g0, g1, r)
                },
                Brain::Generator(_) => {
                    &&& r == Some(spawn_choice(o, pos, g0.peek()))
                    &&& g1 == g0.advance()
                    &&& mid.actors@[k as int].brain == b
                },
                _ => {
                    &&& r is None
                    &&& g1 == g0
                    &&& mid.actors@[k as int].brain == b
                },
            }
        },
    }
}

/// The turn of the live actor `k` turns `o` into `n`: its brain decides, and
/// the action decided, if any, is carried out. `acted` tells whether there
/// was one.
pub open spec fn turn_taken(o: World, n: World, k: usize, key: Option<KeyCode>, g0: RandomSource, g1: RandomSource, acted: bool) -> bool {
    exists|mid: World, r: Option<Action>|
        #![trigger turn_decision(o, mid, k, key, g0, g1, r)]
        turn_decision(o, mid, k, key, g0, g1, r) && mid.wf() && match r {
            Some(a) => acted && executed(mid, n, k, a),
            None => !acted && n == mid,
        }
}

/// `n` is `o` but for the ready queue.
pub open spec fn same_but_queue(o: World, n: World) -> bool {
    &&& n.width == o.width
    &&& n.height == o.height
    &&& n.cells() == o.cells()
    &&& n.actors@ == o.actors@
    &&& n.player_state == o.player_state
    &&& n.messages@ == o.messages@
}

/// The stages of one turn: the head `k` of the queue of `o` leaves it
/// (giving `p`); if alive it takes its turn (giving `t`); a player that did
/// not act goes back to the head of the queue (giving `n`).
pub open spec fn turn_stages(o: World, p: World, t: World, n: World, key: Option<KeyCode>, g0: RandomSource, g1: RandomSource, acted: bool) -> bool {
    let k = o.to_act@[0];
    &&& same_but_queue(o, p)
    &&& p.to_act@ == o.to_act@.drop_first()
    &&& p.wf()
    &&& if alive(o.actors@[k as int]) {
        turn_taken(p, t, k, key, g0, g1, acted)
    } else {
        t == p && g1 == g0 && !acted
    }
    &&& same_but_queue(t, n)
    &&& n.to_act@ == if alive(o.actors@[k as int]) && !acted && t.actors@[k as int].is_player {
        seq![k] + t.to_act@
    } else {
        t.to_act@
    }
}

/// `n` is `o` once the head of its ready queue had its turn.
pub open spec fn next_turn(o: World, n: World, key: Option<KeyCode>, g0: RandomSource, g1: RandomSource) -> bool {
    exists|p: World, t: World, acted: bool|
        #![trigger turn_stages(o, p, t, n, key, g0, g1, acted)]
        turn_stages(o, p, t, n, key, g0, g1, acted)
}

/// The stages of a tick: a new round if the queue of `o` is empty (giving
/// `w1`, the random source going from `g0` to `gm`), the turn of the head of
/// the queue if there is one (giving `w2`), and the sweep (giving `n`).
pub open spec fn tick_stages(o: World, w1: World, w2: World, n: World, key: Option<KeyCode>, g0: RandomSource, gm: RandomSource, g1: RandomSource) -> bool {
    &&& if o.to_act@.len() == 0 {
        &&& same_but_queue(o, w1)
        &&& w1.to_act@ == round_from(o.actors@, 0, g0).0
        &&& gm == round_from(o.actors@, 0, g0).1
    } else {
        w1 == o && gm == g0
    }
    &&& w1.wf()
    &&& if w1.to_act@.len() > 0 {
        next_turn(w1, w2, key, gm, g1)
    } else {
        w2 == w1 && g1 == gm
    }
    &&& w2.wf()
    &&& n.width == w2.width
    &&& n.height == w2.height
    &&& n.player_state == w2.player_state
    &&& n.messages@ == w2.messages@
    &&& n.actors@ == survivors_from(w2.actors@, 0)
    &&& forall|x: int, y: int|
        0 <= x < n.width && 0 <= y < n.height ==> #[trigger] n.cells()[y][x] == after_sweep(w2.cells()[y][x], w2.actors@)
    &&& n.to_act@ == queue_after_sweep(w2.actors@, w2.to_act@)
}

/// What one tick does to `o`, with key `key` and the random source going
/// from `g0` to `g1`.
pub open spec fn ticked(o: World, n: World, key: Option<KeyCode>, g0: RandomSource, g1: RandomSource) -> bool {
    exists|w1: World, w2: World, gm: RandomSource|
        #![trigger tick_stages(o, w1, w2, n, key, g0, gm, g1)]
        tick_stages(o, w1, w2, n, key, g0, gm, g1)
}

/// A monster's decision does not depend on the actors' brains either.
proof fn lemma_monster_decided_transfer(m0: MonsterBrain, m1: MonsterBrain, o: World, o2: World, pos: Point, g0: RandomSource, g1: RandomSource, r: Option<Action>)
    requires
        o.wf(),
        same_but_brains(o, o2),
        monster_decided(m0, m1, o2, pos, g0, g1, r),
    ensures
        monster_decided(m0, m1, o, pos, g0, g1, r),
{
    lemma_brains_do_not_matter(o, o2);
    reveal(monster_decided);
    reveal(pursued);
    reveal(followed);
    reveal(recorded);
    assert forall|a: Point, b: Point, p: Seq<Point>| valid_path(o2, a, b, p) == valid_path(o, a, b, p) by {
        if p.len() > 0 {
            assert forall|i: int| 0 <= i < p.len() implies o2.cell(#[trigger] p[i]) == o.cell(p[i]) by {}
        }
    }
    assert forall|q: Point| monster_step(o2, q) == monster_step(o, q) by {}
    assert forall|v: u64| random_step(o2, pos, v) == random_step(o, pos, v) by {}
    let pp = o.player_position();
    if !(m0.state == MonsterState::Passive && manhattan(pos, pp) >= 20) && !(adjacent(pos, pp) && o.bumpable(pp, true)) && !(manhattan(pos, pp) >= 4
        && m0.path@.len() > 0) {
        let (p, c) = choose|p: Seq<Point>, c: usize|
            recorded(m0.stuck_on_path_count, p, c, o2, pos, pp) && followed(p, c, m1, o2, pos, g0, g1, r);
        assert(recorded(m0.stuck_on_path_count, p, c, o, pos, pp));
        assert(followed(p, c, m1, o, pos, g0, g1, r));
    }
}

/// A player's decision does not depend on the actors' brains: it carries
/// over from worlds `o2`, `n2` to worlds `o`, `n` that differ from them only
/// there.
proof fn lemma_player_turn_transfer(o: World, o2: World, n2: World, n: World, pos: Point, key: Option<KeyCode>, r: Option<Action>)
    requires
        player_turn(o2, n2, pos, key, r),
        o.wf(),
        o2.width == o.width,
        o2.height == o.height,
        o2.grid == o.grid,
        o2.player_state == o.player_state,
        o2.to_act == o.to_act,
        o2.messages == o.messages,
        o2.actors@.len() == o.actors@.len(),
        forall|j: int|
            0 <= j < o.actors@.len() ==> (#[trigger] o2.actors@[j]).is_solid == o.actors@[j].is_solid
                && o2.actors@[j].is_player == o.actors@[j].is_player,
        n2.actors@ == o2.actors@ ==> n.actors@ == o.actors@,
        n.width == n2.width,
        n.height == n2.height,
        n.grid == n2.grid,
        n.player_state == n2.player_state,
        n.to_act == n2.to_act,
        n.messages == n2.messages,
    ensures
        player_turn(o, n, pos, key, r),
{
    assert forall|q: Point, f: bool| walk_or_bump(o2, q, f) == walk_or_bump(o, q, f) by {
        if o.in_bounds(q) {
            assert(o2.cell(q) == o.cell(q));
            assert(o.cells()[q.y as int][q.x as int] == o.cell(q));
            if o.cell(q).actor is Some {
                let j = o.cell(q).actor->0 as int;
                assert(o2.actors@[j].is_solid == o.actors@[j].is_solid);
            }
        }
    }
}

/// The ready queue of a round that starts at actor `i` with the random
/// source `g`: the indices of the actors from `i` on that want to act, in
/// list order, and the source once their brains have drawn.
pub open spec fn round_from(actors: Seq<Actor>, i: int, g: RandomSource) -> (Seq<usize>, RandomSource)
    decreases actors.len() - i,
{
    if i < 0 || i >= actors.len() {
        (Seq::empty(), g)
    } else {
        let b = actors[i].brain;
        let g2 = if b.draws() {
            g.advance()
        } else {
            g
        };
        let rest = round_from(actors, i + 1, g2);
        (if b.wants_to_act(g.peek()) {
            seq![i as usize] + rest.0
        } else {
            rest.0
        }, rest.1)
    }
}

/// A tick on the player's bump: the bump, then the sweep.
proof fn lemma_bump_then_sweep(o: World, w1: World, w2: World, n: World, key: Option<KeyCode>, q: Point)
    requires
        o.wf(),
        alive(o.actors@[0]),
        player_bumps(o, key, q),
        same_but_queue(o, w1),
        w1.wf(),
        player_bumped(w1, w2, q),
        w2.width == w1.width,
        w2.height == w1.height,
        n.actors@ == survivors_from(w2.actors@, 0),
        n.actors@[0] == w2.actors@[0],
        n.messages == w2.messages,
        n.width == w2.width,
        n.height == w2.height,
        forall|x: int, y: int|
            0 <= x < n.width && 0 <= y < n.height ==> #[trigger] n.cells()[y][x] == after_sweep(w2.cells()[y][x], w2.actors@),
    ensures
        ({
            let t = o.cell(q).actor->0 as int;
            let hit = o.actors@.update(t, Actor { health: (o.actors@[t].health - 1) as i64, ..o.actors@[t] });
            &&& n.actors@ == survivors_from(hit, 0)
            &&& n.actors@[0] == o.actors@[0]
            &&& n.log() == capped(o.log().push(o.actors@[t].name@ + " bumped by "@ + o.actors@[0].name@
                + death_suffix(o.actors@[t].name@, o.actors@[t].health <= 1)))
            &&& o.actors@[t].health <= 1 ==> n.cell(q).actor is None
        }),
{
    let pos = o.actors@[0].position;
    assert(o.cells()[pos.y as int][pos.x as int] == o.cell(pos));
    assert(o.cells()[q.y as int][q.x as int] == o.cell(q));
    let t = o.cell(q).actor->0 as int;
    assert(t != 0);
    assert(w1.log() == o.log());
    assert(n.log() == w2.log());
    assert(n.cells()[q.y as int][q.x as int] == after_sweep(w2.cells()[q.y as int][q.x as int], w2.actors@));
}

impl World {
    /// Starts a round: every actor whose brain wants to act joins the ready
    /// queue, in list order.
    pub fn refill(&mut self, rng: &mut RandomSource)
        requires
            old(self).wf(),
            old(self).to_act@.len() == 0,
        ensures
            final(self).wf(),
            final(self).actors == old(self).actors,
            final(self).grid == old(self).grid,
            final(self).width == old(self).width,
            final(self).height == old(self).height,
            final(self).player_state == old(self).player_state,
            final(self).messages == old(self).messages,
            final(self).to_act@.len() > 0
                && final(self).to_act@[0] == 0,
            final(self).to_act@ == round_from(old(self).actors@, 0, *old(rng)).0,
            *final(rng) == round_from(old(self).actors@, 0, *old(rng)).1,
    {
        let ghost o = *self;
        let ghost g0 = *rng;
        let mut i: usize = 0;
        while i < self.actors.len()
            invariant
                i <= self.actors@.len(),
                self.actors == o.actors,
                self.grid == o.grid,
                self.width == o.width,
                self.height == o.height,
                self.player_state == o.player_state,
                self.messages == o.messages,
                o.wf(),
                forall|a: int| 0 <= a < self.to_act@.len() ==> #[trigger] self.to_act@[a] < i,
                forall|a: int, b: int|
                    0 <= a < b < self.to_act@.len() ==> #[trigger] self.to_act@[a] < #[trigger] self.to_act@[b],
                i > 0 ==> self.to_act@.len() > 0 && self.to_act@[0] == 0,
                self.to_act@ + round_from(o.actors@, i as int, *rng).0 == round_from(o.actors@, 0, g0).0,
                round_from(o.actors@, i as int, *rng).1 == round_from(o.actors@, 0, g0).1,
            decreases self.actors@.len() - i,
        {
            let ghost before = self.to_act@;
            let ghost g = *rng;
            let ghost rest = round_from(o.actors@, i + 1, if o.actors@[i as int].brain.draws() { g.advance() } else { g });
            if self.actors[i].brain.think(rng) {
                self.to_act.push(i);
                assert(before.push(i) + rest.0 =~= before + (seq![i] + rest.0));
            }
            i = i + 1;
        }
        assert(self.to_act@ + Seq::<usize>::empty() =~= self.to_act@);
    }

    /// The live actor `k` decides and its action is carried out. Returns
    /// whether it acted.
    pub fn take_turn<F>(&mut self, k: usize, key: Option<KeyCode>, rng: &mut RandomSource, find_path: &F) -> (acted: bool) where F: Fn(Point, Point) -> Option<Vec<Point>>
        requires
            old(self).wf(),
            k < old(self).actors@.len(),
            alive(old(self).actors@[k as int]),
            forall|a: Point, b: Point| find_path.requires((a, b)),
        ensures
            final(self).wf(),
            final(self).width == old(self).width,
            final(self).height == old(self).height,
            final(self).to_act@ == old(self).to_act@,
            final(self).actors@.len() >= old(self).actors@.len(),
            final(self).actors@[k as int].is_player == old(self).actors@[k as int].is_player,
            old(self).actors@[k as int].brain is Generator ==> spawned(
                *old(self),
                *final(self),
                spawn_choice(*old(self), old(self).actors@[k as int].position, old(rng).peek()),
            ),
            forall|q: Point| k == 0 && player_bumps(*old(self), key, q) ==> acted && player_bumped(
                *old(self),
                *final(self),
                q,
            ),
            k == 0 && idle_key(key, *old(self)) ==> {
                &&& !acted
                &&& idle_effect(*old(self), *final(self), key)
                &&& final(self).actors@ == old(self).actors@
                &&& final(self).cells() == old(self).cells()
            },
            turn_taken(*old(self), *final(self), k, key, *old(rng), *final(rng), acted),
    {
        let ghost o = *self;
        let pos = self.actors[k].position;
        let mut brain = if k == 0 {
            Brain::Player(PlayerBrain::new())
        } else {
            Brain::Inert(NoBrain::new())
        };
        std::mem::swap(&mut self.actors[k].brain, &mut brain);
        assert(self.actors_placed());
        assert(self.live_actors_on_map());
        assert(self.occupants_match(None));
        let ghost o2 = *self;
        let ghost rng0 = *rng;
        let r = brain.act(&pos, key, self, rng, find_path);
        let ghost mid2 = *self;
        std::mem::swap(&mut self.actors[k].brain, &mut brain);
        assert(self.actors_placed());
        assert(self.live_actors_on_map());
        assert(self.occupants_match(None));
        let ghost mid = *self;
        proof {
            assert(same_but_brains(o, o2));
            assert(same_but_brains(o, mid)) by {
                reveal(decided);
            }
            lemma_brains_do_not_matter(o, o2);
            reveal(decided);
            match o.actors@[k as int].brain {
                Brain::Player(_) => {
                    assert(mid.actors@ =~= o.actors@);
                    lemma_player_turn_transfer(o, o2, mid2, mid, pos, key, r);
                },
                Brain::Monster(m0) => {
                    assert(mid.actors@ =~= o.actors@.update(k as int, Actor { brain: mid.actors@[k as int].brain, ..o.actors@[k as int] }));
                    lemma_monster_decided_transfer(m0, mid.actors@[k as int].brain->Monster_0, o, o2, pos, rng0, *rng, r);
                },
                _ => {
                    assert(mid.actors@ =~= o.actors@.update(k as int, Actor { brain: mid.actors@[k as int].brain, ..o.actors@[k as int] }));
                },
            }
            assert(turn_decision(o, mid, k, key, rng0, *rng, r));
        }
        proof {
            if o.actors@[k as int].brain is Generator {
                assert(r == Some(spawn_choice(o, pos, rng0.peek())) && mid.actors@ == o.actors@
                    && mid.messages@ == o.messages@) by {
                    reveal(decided);
                    assert(mid.actors@ =~= o.actors@);
                }
            }
            assert forall|q: Point| k == 0 && player_bumps(o, key, q) implies r == Some(Action::Bump(q)) && mid.actors@
                == o.actors@ && mid.messages@ == o.messages@ && mid.player_state == o.player_state by {
                reveal(decided);
                assert(mid.actors@ =~= o.actors@);
            }
            if k == 0 && idle_key(key, o) {
                assert(r is None && idle_effect(o, *self, key) && self.cells() == o.cells()) by {
                    reveal(decided);
                }
                assert(self.actors@ =~= o.actors@);
            }
        }
        match r {
            Some(a) => {
                a.execute(k, self);
                proof {
                    reveal(executed);
                    if o.actors@[k as int].brain is Generator {
                        assert(spawned(o, *self, a));
                    }
                    assert forall|q: Point| k == 0 && player_bumps(o, key, q) implies player_bumped(o, *self, q) by {
                        assert(a == Action::Bump(q)) by {
                            reveal(decided);
                        }
                    }
                }
                true
            },
            None => false,
        }
    }

    /// The head of the ready queue leaves it and, if alive, acts. A player
    /// that does not act goes back to the head.
    pub fn run_next<F>(&mut self, key: Option<KeyCode>, rng: &mut RandomSource, find_path: &F) where F: Fn(Point, Point) -> Option<Vec<Point>>
        requires
            old(self).wf(),
            old(self).to_act@.len() > 0,
            forall|a: Point, b: Point| find_path.requires((a, b)),
        ensures
            final(self).wf(),
            final(self).width == old(self).width,
            final(self).height == old(self).height,
            final(self).to_act@ == old(self).to_act@.drop_first() || (old(self).to_act@[0] == 0
                && final(self).to_act@ == old(self).to_act@),
            ({
                let k = old(self).to_act@[0] as int;
                alive(old(self).actors@[k]) && old(self).actors@[k].brain is Generator ==> {
                    &&& spawned(*old(self), *final(self), spawn_choice(*old(self), old(self).actors@[k].position, old(rng).peek()))
                    &&& final(self).to_act@ == old(self).to_act@.drop_first()
                }
            }),
            forall|q: Point|
                old(self).to_act@[0] == 0 && alive(old(self).actors@[0]) && player_bumps(*old(self), key, q)
                    ==> player_bumped(*old(self), *final(self), q) && final(self).to_act@ == old(self).to_act@.drop_first(),
            old(self).to_act@[0] == 0 && alive(old(self).actors@[0]) && idle_key(key, *old(self)) ==> {
                &&& idle_effect(*old(self), *final(self), key)
                &&& final(self).actors@ == old(self).actors@
                &&& final(self).cells() == old(self).cells()
                &&& final(self).to_act@ == old(self).to_act@
            },
            next_turn(*old(self), *final(self), key, *old(rng), *final(rng)),
    {
        let ghost o = *self;
        let ghost g0 = *rng;
        let k = self.to_act.remove(0);
        assert(self.to_act@ =~= o.to_act@.drop_first());
        assert(self.queue_ok());
        let ghost p = *self;
        assert(same_but_queue(o, p));
        assert forall|q: Point| player_bumps(o, key, q) implies player_bumps(p, key, q) by {
            assert(p.walkable(q) == o.walkable(q));
            assert(p.bumpable(q, false) == o.bumpable(q, false));
        }
        let mut acted = false;
        let alive_k = self.actors[k].is_alive();
        if alive_k {
            acted = self.take_turn(k, key, rng, find_path);
        }
        let ghost t = *self;
        if alive_k && !acted && self.actors[k].is_player {
            assert(k == 0);
            self.to_act.insert(0, k);
            assert(self.to_act@ =~= o.to_act@);
            assert(self.to_act@ =~= seq![k] + t.to_act@);
            assert(self.queue_ok());
        }
        assert(same_but_queue(o, p));
        assert(p.wf());
        assert(same_but_queue(t, *self));
        assert(turn_stages(o, p, t, *self, key, g0, *rng, acted));
        assert forall|q: Point|
            o.to_act@[0] == 0 && alive(o.actors@[0]) && player_bumps(o, key, q) implies player_bumped(o, *self, q)
                && self.to_act@ == o.to_act@.drop_first() by {
            assert(player_bumped(p, t, q));
            assert(p.log() == o.log());
            assert(self.log() == t.log());
        }
    }

    /// One step of the scheduler. When the ready queue is empty a new round
    /// starts (see `refill`). Then the head of the queue acts (see
    /// `run_next`): the player on `key`, monsters with `find_path` to plan
    /// their way, all of them drawing from `rng`. Last, the dead are swept
    /// from the list.
    pub fn tick<F>(&mut self, key: Option<KeyCode>, rng: &mut RandomSource, find_path: &F) where F: Fn(Point, Point) -> Option<Vec<Point>>
        requires
            old(self).wf(),
            forall|a: Point, b: Point| find_path.requires((a, b)),
        ensures
            final(self).wf(),
            final(self).swept(),
            final(self).width == old(self).width,
            final(self).height == old(self).height,
            old(self).to_act@.len() > 0 ==> final(self).to_act@.len() < old(self).to_act@.len() || (
            old(self).to_act@[0] == 0 && final(self).to_act@.len() == old(self).to_act@.len()
                && final(self).to_act@[0] == 0),
            ({
                let o = *old(self);
                idle_key(key, o) && o.player_next() && alive(o.actors@[0]) ==> idle_tick(o, *final(self), key)
            }),
            forall|q: Point|
                old(self).player_next() && alive(old(self).actors@[0]) && player_bumps(*old(self), key, q) ==> {
                    let o = *old(self);
                    let t = o.cell(q).actor->0 as int;
                    let hit = o.actors@.update(t, Actor { health: (o.actors@[t].health - 1) as i64, ..o.actors@[t] });
                    &&& final(self).actors@ == survivors_from(hit, 0)
                    &&& final(self).actors@[0] == o.actors@[0]
                    &&& final(self).log() == capped(o.log().push(o.actors@[t].name@ + " bumped by "@ + o.actors@[0].name@
                        + death_suffix(o.actors@[t].name@, o.actors@[t].health <= 1)))
                    &&& o.actors@[t].health <= 1 ==> final(self).cell(q).actor is None
                },
            ({
                let o = *old(self);
                let k = o.to_act@[0] as int;
                o.to_act@.len() > 0 && o.swept() && alive(o.actors@[k]) && o.actors@[k].brain is Generator ==> {
                    &&& spawned(o, *final(self), spawn_choice(o, o.actors@[k].position, old(rng).peek()))
                    &&& final(self).to_act@ == o.to_act@.drop_first()
                    &&& forall|i: int| 0 <= i < final(self).to_act@.len() ==> #[trigger] final(self).to_act@[i] < o.actors@.len()
                }
            }),
            ticked(*old(self), *final(self), key, *old(rng), *final(rng)),
    {
        let ghost o = *self;
        let ghost g0 = *rng;
        if self.to_act.len() == 0 {
            self.refill(rng);
        }
        let ghost w1 = *self;
        let ghost gm = *rng;
        if self.to_act.len() > 0 {
            self.run_next(key, rng, find_path);
        }
        let ghost w2 = *self;
        proof {
            let k = o.to_act@[0] as int;
            if o.to_act@.len() > 0 && o.swept() && alive(o.actors@[k]) && o.actors@[k].brain is Generator {
                assert forall|j: int| 0 < j < w2.actors@.len() implies alive(#[trigger] w2.actors@[j]) by {
                    if j < o.actors@.len() {
                        assert(w2.actors@[j] == w2.actors@.subrange(0, o.actors@.len() as int)[j]);
                        assert(alive(o.actors@[j]));
                    }
                }
                assert(w2.swept());
            }
        }
        self.retain_alive();
        assert forall|q: Point|
            o.player_next() && alive(o.actors@[0]) && player_bumps(o, key, q) implies {
            let t = o.cell(q).actor->0 as int;
            let hit = o.actors@.update(t, Actor { health: (o.actors@[t].health - 1) as i64, ..o.actors@[t] });
            &&& self.actors@ == survivors_from(hit, 0)
            &&& self.actors@[0] == o.actors@[0]
            &&& self.log() == capped(o.log().push(o.actors@[t].name@ + " bumped by "@ + o.actors@[0].name@
                + death_suffix(o.actors@[t].name@, o.actors@[t].health <= 1)))
            &&& o.actors@[t].health <= 1 ==> self.cell(q).actor is None
        } by {
            assert(player_bumps(w1, key, q)) by {
                assert(w1.walkable(q) == o.walkable(q));
                assert(w1.bumpable(q, false) == o.bumpable(q, false));
            }
            lemma_bump_then_sweep(o, w1, w2, *self, key, q);
        }
        assert(tick_stages(o, w1, w2, *self, key, g0, gm, *rng));
    }
}

} // verus!
