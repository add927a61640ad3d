use vstd::prelude::*;

use crate::action::{bump_done, move_done, pickup_target};
use crate::actor::alive;
use crate::util::Point;
use crate::actor::Actor;
use crate::rng::RandomSource;
use crate::scheduler::{aim_toggled, round_from};
use crate::world::World;

verus! {

/// In a well-formed world, the occupant of a cell stands at that cell.
pub proof fn lemma_occupant_stands_on_its_cell(w: World, p: Point)
    requires
        w.wf(),
        w.in_bounds(p),
        w.cell(p).actor is Some,
    ensures
        w.cell(p).actor->0 < w.actors@.len(),
        w.actors@[w.cell(p).actor->0 as int].position == p,
{
    assert(w.cells()[p.y as int][p.x as int] == w.cell(p));
}

/// In a well-formed world, a cell of the map has an occupant exactly when
/// some live actor stands there.
pub proof fn lemma_occupied_cells_are_live_positions(w: World, p: Point)
    requires
        w.wf(),
        w.in_bounds(p),
    ensures
        w.cell(p).actor is Some <==> exists|k: int|
            0 <= k < w.actors@.len() && alive(#[trigger] w.actors@[k]) && w.actors@[k].position == p,
{
    assert(w.cells()[p.y as int][p.x as int] == w.cell(p));
    if w.cell(p).actor is Some {
        let k = w.cell(p).actor->0 as int;
        assert(alive(w.actors@[k]) && w.actors@[k].position == p);
    }
}

/// In a well-formed world the ready queue names each actor at most once,
/// so no actor acts twice in one round.
pub proof fn lemma_round_queue_has_no_repeats(w: World)
    requires
        w.wf(),
    ensures
        w.to_act@.no_duplicates(),
{
    assert forall|i: int, j: int| 0 <= i < w.to_act@.len() && 0 <= j < w.to_act@.len() && i != j implies w.to_act@[i]
        != w.to_act@[j] by {
        if i < j {
            assert(w.to_act@[i] < w.to_act@[j]);
        } else {
            assert(w.to_act@[j] < w.to_act@[i]);
        }
    }
}

/// A bump moves nobody: every actor keeps its position.
pub proof fn lemma_bump_moves_nobody(o: World, n: World, a: usize, p: Point)
    requires
        o.wf(),
        bump_done(o, n, a, p),
    ensures
        n.actors@.len() == o.actors@.len(),
        forall|k: int| 0 <= k < o.actors@.len() ==> (#[trigger] n.actors@[k]).position == o.actors@[k].position,
{
    if o.in_bounds(p) && o.cell(p).actor is Some {
        assert(o.cells()[p.y as int][p.x as int] == o.cell(p));
    }
}

/// A move by `a` to a cell `p` other than its own touches the occupancy of
/// two cells only: its old cell is cleared and `p` holds it, when it
/// entered; otherwise only `p` may have lost the item picked up there.
pub proof fn lemma_move_touches_two_cells(o: World, n: World, a: usize, p: Point, q: Point)
    requires
        o.wf(),
        a < o.actors@.len(),
        alive(o.actors@[a as int]),
        o.in_bounds(p),
        p != o.actors@[a as int].position,
        move_done(o, n, a, p),
        o.in_bounds(q),
    ensures
        q != p && q != o.actors@[a as int].position ==> n.cell(q) == o.cell(q),
        n.cell(p).actor == Some(a) || n.cell(p).actor is None,
        n.actors@[a as int].position == p ==> n.cell(p).actor == Some(a) && n.cell(
            o.actors@[a as int].position,
        ).actor is None,
{
    let pa = o.actors@[a as int].position;
    assert(o.cells()[pa.y as int][pa.x as int] == o.cell(pa));
    assert(o.cells()[p.y as int][p.x as int] == o.cell(p));
    match pickup_target(o, a, p) {
        Some(t) => {},
        None => {},
    }
}

/// Two presses of the aim key in a row leave the aim as it was and the
/// player still to act: the second press finds the player at the head of
/// the queue, as the first left it. From a swept world (one that a tick
/// left), the actors, the map and the queue are untouched as well.
pub proof fn lemma_aim_toggle_twice(a: World, b: World, c: World)
    requires
        aim_toggled(a, b),
        aim_toggled(b, c),
    ensures
        c.player_state == a.player_state,
        c.messages@ == a.messages@,
        b.player_next(),
        c.player_next(),
        c.actors@ == b.actors@,
        c.cells() == b.cells(),
        c.to_act@ == b.to_act@,
        a.swept() ==> c.actors@ == a.actors@ && c.cells() == a.cells(),
        a.swept() && a.to_act@.len() > 0 ==> c.to_act@ == a.to_act@,
{
}

/// A round's ready queue, from actor `i` on, lists actors of the list in
/// list order, each at most once: no actor is polled twice in a round.
pub proof fn lemma_round_polls_each_actor_once(actors: Seq<Actor>, i: int, g: RandomSource)
    requires
        0 <= i,
        actors.len() <= usize::MAX,
    ensures
        ({
            let q = round_from(actors, i, g).0;
            &&& forall|a: int, b: int| 0 <= a < b < q.len() ==> #[trigger] q[a] < #[trigger] q[b]
            &&& forall|a: int| 0 <= a < q.len() ==> i <= #[trigger] q[a] < actors.len()
        }),
    decreases actors.len() - i,
{
    if i < actors.len() {
        let b = actors[i].brain;
        let g2 = if b.draws() {
            g.advance()
        } else {
            g
        };
        lemma_round_polls_each_actor_once(actors, i + 1, g2);
        let rest = round_from(actors, i + 1, g2).0;
        if b.wants_to_act(g.peek()) {
            let q = seq![i as usize] + rest;
            assert(forall|a: int| 0 < a < q.len() ==> q[a] == rest[a - 1]);
        }
    }
}

} // verus!
