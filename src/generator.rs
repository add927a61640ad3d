use vstd::prelude::*;

use crate::action::{fresh_generator, fresh_kobold};
use crate::actor::{alive, Actor};
use crate::rng::RandomSource;
use crate::util::Point;
use crate::world::{terrain_of, Cell, CellType, World};

verus! {

/// Percentage of interior cells that start as wall.
pub const FILL_PERCENT: u64 = 40;

/// Number of smoothing passes.
pub const GENERATIONS: usize = 5;

/// Walls in the 3x3 window from which a cell becomes wall.
pub const R1_CUTOFF: usize = 5;

/// Walls in the rounded 5x5 window up to which a cell becomes wall.
pub const R2_CUTOFF: usize = 2;

/// Kobolds placed on a new map.
pub const N_MONSTERS: usize = 10;

/// Kobold generators placed on a new map.
pub const N_GENERATORS: usize = 10;

/// Why a cave could not be made.
#[derive(Clone, Copy, PartialEq, Eq, Structural, Debug)]
pub enum GenerateError {
    /// Too few floor cells to place the player and the monsters.
    MapTooDense,
}

/// `g` has `h` rows of `w` entries.
pub open spec fn grid_shaped(g: Seq<Seq<u8>>, w: int, h: int) -> bool {
    &&& g.len() == h
    &&& forall|y: int| 0 <= y < h ==> (#[trigger] g[y]).len() == w
}

/// 1 if `(x, y)` lies in `g` and holds a wall, else 0.
pub open spec fn wall_at(g: Seq<Seq<u8>>, x: int, y: int) -> int {
    if 0 <= y < g.len() && 0 <= x < g[y].len() && g[y][x] == 1 {
        1
    } else {
        0
    }
}

/// Walls on row `y` from column `x0` up to, not including, `x1`.
pub open spec fn row_walls(g: Seq<Seq<u8>>, y: int, x0: int, x1: int) -> int
    decreases x1 - x0,
{
    if x1 <= x0 {
        0
    } else {
        row_walls(g, y, x0, x1 - 1) + wall_at(g, x1 - 1, y)
    }
}

/// Walls in the window of columns `x0..x1` and rows `y0..y1`.
pub open spec fn window_walls(g: Seq<Seq<u8>>, x0: int, x1: int, y0: int, y1: int) -> int
    decreases y1 - y0,
{
    if y1 <= y0 {
        0
    } else {
        window_walls(g, x0, x1, y0, y1 - 1) + row_walls(g, y1 - 1, x0, x1)
    }
}

/// Walls in the 3x3 window centred on `(x, y)`, the centre included.
pub open spec fn r1(g: Seq<Seq<u8>>, x: int, y: int) -> int {
    window_walls(g, x - 1, x + 2, y - 1, y + 2)
}

/// Walls in the 5x5 window centred on `(x, y)` without its four corners;
/// cells outside the grid count as open.
pub open spec fn r2(g: Seq<Seq<u8>>, x: int, y: int) -> int {
    window_walls(g, x - 2, x + 3, y - 2, y + 3) - wall_at(g, x - 2, y - 2) - wall_at(g, x + 2, y - 2)
        - wall_at(g, x - 2, y + 2) - wall_at(g, x + 2, y + 2)
}

/// `(x, y)` lies on the outer ring of a `w` by `h` grid.
pub open spec fn on_border(w: int, h: int, x: int, y: int) -> bool {
    x == 0 || y == 0 || x == w - 1 || y == h - 1
}

/// The next state of cell `(x, y)`: border cells stay wall; an interior
/// cell becomes wall when crowded (`r1 >= 5`) or in the middle of an open
/// space (`r2 <= 2`), and floor otherwise.
pub open spec fn next_cell(g: Seq<Seq<u8>>, w: int, h: int, x: int, y: int) -> u8 {
    if on_border(w, h, x, y) {
        1
    } else if r1(g, x, y) >= R1_CUTOFF || r2(g, x, y) <= R2_CUTOFF {
        1
    } else {
        0
    }
}

/// The grid after one smoothing pass: `next_cell` everywhere.
pub open spec fn next_grid(g: Seq<Seq<u8>>, w: int, h: int) -> Seq<Seq<u8>> {
    Seq::new(h as nat, |y: int| Seq::new(w as nat, |x: int| next_cell(g, w, h, x, y)))
}

/// The grid after `n` smoothing passes.
pub open spec fn smoothed(g: Seq<Seq<u8>>, w: int, h: int, n: nat) -> Seq<Seq<u8>>
    decreases n,
{
    if n == 0 {
        g
    } else {
        next_grid(smoothed(g, w, h, (n - 1) as nat), w, h)
    }
}

/// The starting value of cell `(x, y)`, drawing from `g`, and the source
/// afterwards: the border is wall without a draw; an interior cell draws,
/// and is wall when the draw modulo 100 falls below the fill percentage.
pub open spec fn seed_cell(w: int, h: int, x: int, y: int, g: RandomSource) -> (u8, RandomSource) {
    if on_border(w, h, x, y) {
        (1, g)
    } else {
        (if g.peek() % 100 < FILL_PERCENT {
            1u8
        } else {
            0u8
        }, g.advance())
    }
}

/// The starting values of row `y` from column `x` on, and the source afterwards.
pub open spec fn seed_row(w: int, h: int, y: int, x: int, g: RandomSource) -> (Seq<u8>, RandomSource)
    decreases w - x,
{
    if x < 0 || x >= w {
        (Seq::empty(), g)
    } else {
        let c = seed_cell(w, h, x, y, g);
        let rest = seed_row(w, h, y, x + 1, c.1);
        (seq![c.0] + rest.0, rest.1)
    }
}

/// The starting rows from row `y` on, and the source afterwards.
pub open spec fn seed_rows(w: int, h: int, y: int, g: RandomSource) -> (Seq<Seq<u8>>, RandomSource)
    decreases h - y,
{
    if y < 0 || y >= h {
        (Seq::empty(), g)
    } else {
        let r = seed_row(w, h, y, 0, g);
        let rest = seed_rows(w, h, y + 1, r.1);
        (seq![r.0] + rest.0, rest.1)
    }
}

/// The floor cells of row `y` of `g` from column `x` on, left to right.
pub open spec fn floors_row(g: Seq<Seq<u8>>, w: int, y: int, x: int) -> Seq<Point>
    decreases w - x,
{
    if x < 0 || x >= w {
        Seq::empty()
    } else {
        (if g[y][x] != 1 {
            seq![Point { x: x as usize, y: y as usize }]
        } else {
            Seq::empty()
        }) + floors_row(g, w, y, x + 1)
    }
}

/// The floor cells of `g` from row `y` on, row by row.
pub open spec fn floors_from(g: Seq<Seq<u8>>, w: int, h: int, y: int) -> Seq<Point>
    decreases h - y,
{
    if y < 0 || y >= h {
        Seq::empty()
    } else {
        floors_row(g, w, y, 0) + floors_from(g, w, h, y + 1)
    }
}

/// The cells that `n` placements take from `f`, drawing from `g`, and the
/// source afterwards: each placement takes the entry at the next draw
/// modulo the number of entries left, and removes it from the list.
pub open spec fn picks(f: Seq<Point>, n: nat, g: RandomSource) -> (Seq<Point>, RandomSource)
    decreases n,
{
    if n == 0 || f.len() == 0 {
        (Seq::empty(), g)
    } else {
        let i = g.peek() as int % f.len() as int;
        let rest = picks(f.remove(i), (n - 1) as nat, g.advance());
        (seq![f[i]] + rest.0, rest.1)
    }
}

proof fn lemma_picks_len(f: Seq<Point>, n: nat, g: RandomSource)
    requires
        f.len() >= n,
    ensures
        picks(f, n, g).0.len() == n,
    decreases n,
{
    if n > 0 {
        let i = g.peek() as int % f.len() as int;
        lemma_picks_len(f.remove(i), (n - 1) as nat, g.advance());
    }
}

proof fn lemma_row_walls_bounds(g: Seq<Seq<u8>>, y: int, x0: int, x1: int)
    ensures
        0 <= row_walls(g, y, x0, x1) <= if x1 > x0 { x1 - x0 } else { 0 },
    decreases x1 - x0,
{
    if x1 > x0 {
        lemma_row_walls_bounds(g, y, x0, x1 - 1);
    }
}

proof fn lemma_window_walls_bounds(g: Seq<Seq<u8>>, x0: int, x1: int, y0: int, y1: int)
    requires
        x0 <= x1,
    ensures
        0 <= window_walls(g, x0, x1, y0, y1) <= if y1 > y0 { (y1 - y0) * (x1 - x0) } else { 0 },
    decreases y1 - y0,
{
    if y1 > y0 {
        lemma_window_walls_bounds(g, x0, x1, y0, y1 - 1);
        lemma_row_walls_bounds(g, y1 - 1, x0, x1);
        assert((y1 - y0) * (x1 - x0) == (y1 - 1 - y0) * (x1 - x0) + (x1 - x0)) by (nonlinear_arith);
    }
}

/// 1 if the cell `(sx - 2, sy - 2)` is a wall of `g`, else 0: the
/// coordinates come shifted by two so that the window may reach past the
/// low edges.
fn wall_at_shifted(g: &Vec<Vec<u8>>, w: usize, h: usize, sx: usize, sy: usize) -> (r: usize)
    requires
        grid_shaped(g@.map_values(|r: Vec<u8>| r@), w as int, h as int),
    ensures
        r == wall_at(g@.map_values(|r: Vec<u8>| r@), sx - 2, sy - 2),
{
    let ghost gv = g@.map_values(|r: Vec<u8>| r@);
    if sx >= 2 && sy >= 2 && sx - 2 < w && sy - 2 < h {
        assert(gv[sy - 2].len() == w);
        if g[sy - 2][sx - 2] == 1 {
            1
        } else {
            0
        }
    } else {
        0
    }
}

/// Walls in the `n` by `n` window whose low corner is `(sx - 2, sy - 2)`.
fn count_walls(g: &Vec<Vec<u8>>, w: usize, h: usize, sx: usize, sy: usize, n: usize) -> (r: usize)
    requires
        grid_shaped(g@.map_values(|r: Vec<u8>| r@), w as int, h as int),
        n <= 5,
        sx + n <= usize::MAX,
        sy + n <= usize::MAX,
    ensures
        r == window_walls(g@.map_values(|r: Vec<u8>| r@), sx - 2, sx - 2 + n, sy - 2, sy - 2 + n),
{
    let ghost gv = g@.map_values(|r: Vec<u8>| r@);
    let mut total: usize = 0;
    let mut j: usize = 0;
    while j < n
        invariant
            grid_shaped(gv, w as int, h as int),
            gv == g@.map_values(|r: Vec<u8>| r@),
            n <= 5,
            sx + n <= usize::MAX,
            sy + n <= usize::MAX,
            j <= n,
            total == window_walls(gv, sx - 2, sx - 2 + n, sy - 2, sy - 2 + j),
            total <= j * n,
        decreases n - j,
    {
        let mut row: usize = 0;
        let mut i: usize = 0;
        while i < n
            invariant
                grid_shaped(gv, w as int, h as int),
                gv == g@.map_values(|r: Vec<u8>| r@),
                n <= 5,
                sx + n <= usize::MAX,
                sy + n <= usize::MAX,
                j < n,
                i <= n,
                row == row_walls(gv, sy - 2 + j, sx - 2, sx - 2 + i),
                row <= i,
            decreases n - i,
        {
            row = row + wall_at_shifted(g, w, h, sx + i, sy + j);
            i = i + 1;
        }
        proof {
            assert((j + 1) * n == j * n + n) by (nonlinear_arith);
            assert(j * n <= 20) by (nonlinear_arith)
                requires j < n, n <= 5;
        }
        total = total + row;
        j = j + 1;
    }
    total
}

/// One smoothing pass over the cave: the grid of `next_cell` values.
pub fn ca_step(g: &Vec<Vec<u8>>, w: usize, h: usize) -> (r: Vec<Vec<u8>>)
    requires
        grid_shaped(g@.map_values(|r: Vec<u8>| r@), w as int, h as int),
        w + 5 <= usize::MAX,
        h + 5 <= usize::MAX,
    ensures
        grid_shaped(r@.map_values(|r: Vec<u8>| r@), w as int, h as int),
        forall|x: int, y: int|
            0 <= x < w && 0 <= y < h ==> #[trigger] r@[y]@[x] == next_cell(
                g@.map_values(|r: Vec<u8>| r@),
                w as int,
                h as int,
                x,
                y,
            ),
        r@.map_values(|r: Vec<u8>| r@) == next_grid(g@.map_values(|r: Vec<u8>| r@), w as int, h as int),
{
    let ghost gv = g@.map_values(|r: Vec<u8>| r@);
    let mut out: Vec<Vec<u8>> = Vec::new();
    let mut y: usize = 0;
    while y < h
        invariant
            grid_shaped(gv, w as int, h as int),
            gv == g@.map_values(|r: Vec<u8>| r@),
            w + 5 <= usize::MAX,
            h + 5 <= usize::MAX,
            y <= h,
            out@.len() == y,
            forall|yy: int| 0 <= yy < y ==> (#[trigger] out@[yy])@.len() == w,
            forall|x: int, yy: int|
                0 <= x < w && 0 <= yy < y ==> #[trigger] out@[yy]@[x] == next_cell(gv, w as int, h as int, x, yy),
        decreases h - y,
    {
        let mut row: Vec<u8> = Vec::new();
        let mut x: usize = 0;
        while x < w
            invariant
                grid_shaped(gv, w as int, h as int),
                gv == g@.map_values(|r: Vec<u8>| r@),
                w + 5 <= usize::MAX,
                h + 5 <= usize::MAX,
                y < h,
                x <= w,
                row@.len() == x,
                forall|xx: int| 0 <= xx < x ==> #[trigger] row@[xx] == next_cell(gv, w as int, h as int, xx, y as int),
            decreases w - x,
        {
            if x == 0 || y == 0 || x == w - 1 || y == h - 1 {
                row.push(1);
            } else {
                let c1 = count_walls(g, w, h, x + 1, y + 1, 3);
                let c5 = count_walls(g, w, h, x, y, 5);
                proof {
                    lemma_window_walls_bounds(gv, x - 2, x + 3, y - 2, y + 3);
                }
                let corners = wall_at_shifted(g, w, h, x, y) + wall_at_shifted(g, w, h, x + 4, y)
                    + wall_at_shifted(g, w, h, x, y + 4) + wall_at_shifted(g, w, h, x + 4, y + 4);
                if c1 >= R1_CUTOFF || c5 < corners + R2_CUTOFF + 1 {
                    row.push(1);
                } else {
                    row.push(0);
                }
            }
            x = x + 1;
        }
        out.push(row);
        y = y + 1;
    }
    assert(grid_shaped(out@.map_values(|r: Vec<u8>| r@), w as int, h as int));
    assert(out@.map_values(|r: Vec<u8>| r@) =~~= next_grid(gv, w as int, h as int));
    out
}

/// Every entry of `g` is 0 or 1 and its outer ring is wall.
pub open spec fn walled(g: Seq<Seq<u8>>, w: int, h: int) -> bool {
    &&& grid_shaped(g, w, h)
    &&& forall|x: int, y: int| 0 <= x < w && 0 <= y < h ==> #[trigger] g[y][x] <= 1
    &&& forall|x: int, y: int| 0 <= x < w && 0 <= y < h && on_border(w, h, x, y) ==> #[trigger] g[y][x] == 1
}

/// The starting grid: the outer ring is wall; each interior cell is wall
/// when a draw of `rng` modulo 100 falls below the fill percentage.
pub fn seed_grid(w: usize, h: usize, rng: &mut RandomSource) -> (g: Vec<Vec<u8>>)
    ensures
        walled(g@.map_values(|r: Vec<u8>| r@), w as int, h as int),
        g@.map_values(|r: Vec<u8>| r@) == seed_rows(w as int, h as int, 0, *old(rng)).0,
        *final(rng) == seed_rows(w as int, h as int, 0, *old(rng)).1,
{
    let ghost g0 = *rng;
    let mut g: Vec<Vec<u8>> = Vec::new();
    let mut y: usize = 0;
    while y < h
        invariant
            g@.map_values(|r: Vec<u8>| r@) + seed_rows(w as int, h as int, y as int, *rng).0 == seed_rows(
                w as int,
                h as int,
                0,
                g0,
            ).0,
            seed_rows(w as int, h as int, y as int, *rng).1 == seed_rows(w as int, h as int, 0, g0).1,
            y <= h,
            g@.len() == y,
            forall|yy: int| 0 <= yy < y ==> (#[trigger] g@[yy])@.len() == w,
            forall|x: int, yy: int| 0 <= x < w && 0 <= yy < y ==> #[trigger] g@[yy]@[x] <= 1,
            forall|x: int, yy: int|
                0 <= x < w && 0 <= yy < y && on_border(w as int, h as int, x, yy) ==> #[trigger] g@[yy]@[x] == 1,
        decreases h - y,
    {
        let ghost rs = *rng;
        let mut row: Vec<u8> = Vec::new();
        let mut x: usize = 0;
        while x < w
            invariant
                row@ + seed_row(w as int, h as int, y as int, x as int, *rng).0 == seed_row(w as int, h as int, y as int, 0, rs).0,
                seed_row(w as int, h as int, y as int, x as int, *rng).1 == seed_row(w as int, h as int, y as int, 0, rs).1,
                y < h,
                x <= w,
                row@.len() == x,
                forall|xx: int| 0 <= xx < x ==> #[trigger] row@[xx] <= 1,
                forall|xx: int|
                    0 <= xx < x && on_border(w as int, h as int, xx, y as int) ==> #[trigger] row@[xx] == 1,
            decreases w - x,
        {
            let ghost before = row@;
            let ghost gx = *rng;
            let ghost c = seed_cell(w as int, h as int, x as int, y as int, gx);
            if x == 0 || y == 0 || x == w - 1 || y == h - 1 {
                row.push(1);
            } else if rng.next_u64() % 100 < FILL_PERCENT {
                row.push(1);
            } else {
                row.push(0);
            }
            assert(before.push(c.0) + seed_row(w as int, h as int, y as int, x + 1, c.1).0 =~= before + (seq![c.0]
                + seed_row(w as int, h as int, y as int, x + 1, c.1).0));
            x = x + 1;
        }
        assert(row@ + Seq::<u8>::empty() =~= row@);
        let ghost gb = g@.map_values(|r: Vec<u8>| r@);
        let ghost rest = seed_rows(w as int, h as int, y + 1, *rng).0;
        g.push(row);
        assert(g@.map_values(|r: Vec<u8>| r@) =~= gb.push(row@));
        assert(gb.push(row@) + rest =~= gb + (seq![row@] + rest));
        y = y + 1;
    }
    assert(g@.map_values(|r: Vec<u8>| r@) + Seq::<Seq<u8>>::empty() =~= g@.map_values(|r: Vec<u8>| r@));
    assert(walled(g@.map_values(|r: Vec<u8>| r@), w as int, h as int));
    g
}

/// The floor cells of `g`, row by row.
pub fn floor_cells(g: &Vec<Vec<u8>>, w: usize, h: usize) -> (f: Vec<Point>)
    requires
        grid_shaped(g@.map_values(|r: Vec<u8>| r@), w as int, h as int),
    ensures
        forall|i: int|
            0 <= i < f@.len() ==> (#[trigger] f@[i]).x < w && f@[i].y < h && g@[f@[i].y as int]@[f@[i].x as int]
                != 1,
        forall|x: int, y: int|
            0 <= x < w && 0 <= y < h && #[trigger] g@[y]@[x] != 1 ==> f@.contains(Point { x: x as usize, y: y as usize }),
        f@.no_duplicates(),
        f@ == floors_from(g@.map_values(|r: Vec<u8>| r@), w as int, h as int, 0),
{
    let ghost gv = g@.map_values(|r: Vec<u8>| r@);
    let mut f: Vec<Point> = Vec::new();
    let mut y: usize = 0;
    while y < h
        invariant
            f@ + floors_from(gv, w as int, h as int, y as int) == floors_from(gv, w as int, h as int, 0),
            grid_shaped(gv, w as int, h as int),
            gv == g@.map_values(|r: Vec<u8>| r@),
            y <= h,
            forall|i: int|
                0 <= i < f@.len() ==> (#[trigger] f@[i]).x < w && f@[i].y < y && g@[f@[i].y as int]@[f@[i].x as int]
                    != 1,
            forall|xx: int, yy: int|
                0 <= xx < w && 0 <= yy < y && #[trigger] g@[yy]@[xx] != 1 ==> f@.contains(Point { x: xx as usize, y: yy as usize }),
            f@.no_duplicates(),
        decreases h - y,
    {
        let mut x: usize = 0;
        assert(gv[y as int].len() == w);
        let ghost fy = f@;
        while x < w
            invariant
                fy + floors_from(gv, w as int, h as int, y as int) == floors_from(gv, w as int, h as int, 0),
                f@ + floors_row(gv, w as int, y as int, x as int) == fy + floors_row(gv, w as int, y as int, 0),
                grid_shaped(gv, w as int, h as int),
                gv == g@.map_values(|r: Vec<u8>| r@),
                y < h,
                x <= w,
                g@[y as int]@.len() == w,
                forall|i: int|
                    0 <= i < f@.len() ==> (#[trigger] f@[i]).x < w && f@[i].y <= y && (f@[i].y == y ==> f@[i].x < x)
                        && g@[f@[i].y as int]@[f@[i].x as int] != 1,
                forall|xx: int, yy: int|
                    0 <= xx < w && 0 <= yy < h && (yy < y || (yy == y && xx < x)) && #[trigger] g@[yy]@[xx] != 1
                        ==> f@.contains(Point { x: xx as usize, y: yy as usize }),
                f@.no_duplicates(),
            decreases w - x,
        {
            let ghost fb = f@;
            let ghost tail = floors_row(gv, w as int, y as int, x + 1);
            assert(gv[y as int][x as int] == g@[y as int]@[x as int]);
            if g[y][x] != 1 {
                let ghost before = f@;
                f.push(Point { x, y });
                assert(fb.push(Point { x, y }) + tail =~= fb + (seq![Point { x, y }] + tail));
                assert forall|xx: int, yy: int|
                    0 <= xx < w && 0 <= yy < h && (yy < y || (yy == y && xx < x + 1)) && #[trigger] g@[yy]@[xx]
                        != 1 implies f@.contains(Point { x: xx as usize, y: yy as usize }) by {
                    if yy == y && xx == x {
                        assert(f@[f@.len() - 1] == Point { x: xx as usize, y: yy as usize });
                    } else {
                        let j = choose|j: int| 0 <= j < before.len() && before[j] == Point { x: xx as usize, y: yy as usize };
                        assert(f@[j] == before[j]);
                    }
                }
            } else {
                assert(Seq::<Point>::empty() + tail =~= tail);
            }
            x = x + 1;
        }
        assert(f@ + Seq::<Point>::empty() =~= f@);
        assert(fy + (floors_row(gv, w as int, y as int, 0) + floors_from(gv, w as int, h as int, y + 1)) =~= (fy
            + floors_row(gv, w as int, y as int, 0)) + floors_from(gv, w as int, h as int, y + 1));
        y = y + 1;
    }
    assert(f@ + Seq::<Point>::empty() =~= f@);
    f
}

/// Makes a new cave on `world`: a seeded grid smoothed `GENERATIONS`
/// times, then the player, `N_MONSTERS` kobolds and `N_GENERATORS` kobold
/// generators, each on a floor cell of its own drawn from `rng`. When the
/// cave holds too few floor cells the world is left as it was. The player
/// must be alive: it is placed on the new map.
pub fn generate(world: &mut World, rng: &mut RandomSource) -> (r: Result<(), GenerateError>)
    requires
        old(world).wf(),
        alive(old(world).actors@[0]),
        old(world).width + 5 <= usize::MAX,
        old(world).height + 5 <= usize::MAX,
    ensures
        match r {
            Ok(()) => {
                let w = *final(world);
                &&& w.wf()
                &&& w.swept()
                &&& w.width == old(world).width
                &&& w.height == old(world).height
                &&& w.player_state == old(world).player_state
                &&& w.messages == old(world).messages
                &&& w.to_act@.len() == 0
                &&& forall|x: int, y: int|
                    0 <= x < w.width && 0 <= y < w.height && on_border(w.width as int, w.height as int, x, y)
                        ==> (#[trigger] w.cells()[y][x]).cell_type == CellType::Wall
                &&& w.actors@.len() == 1 + N_MONSTERS + N_GENERATORS
                &&& w.actors@[0] == (Actor { position: w.actors@[0].position, ..old(world).actors@[0] })
                &&& forall|k: int| 0 <= k < w.actors@.len() ==> w.cell((#[trigger] w.actors@[k]).position).cell_type
                    == CellType::Floor
                &&& forall|k: int| 1 <= k <= N_MONSTERS ==> fresh_kobold(#[trigger] w.actors@[k], w.actors@[k].position)
                &&& forall|k: int|
                    N_MONSTERS < k < w.actors@.len() ==> fresh_generator(#[trigger] w.actors@[k], w.actors@[k].position)
                &&& forall|k: int|
                    0 <= k < w.actors@.len() ==> alive(#[trigger] w.actors@[k]) && w.cell(w.actors@[k].position).actor
                        == Some(k as usize)
            },
            Err(e) => {
                &&& e == GenerateError::MapTooDense
                &&& *final(world) == *old(world)
            },
        },
        ({
            let w = old(world).width as int;
            let h = old(world).height as int;
            let seeded = seed_rows(w, h, 0, *old(rng));
            let cave = smoothed(seeded.0, w, h, GENERATIONS as nat);
            let floors = floors_from(cave, w, h, 0);
            let placed = picks(floors, (1 + N_MONSTERS + N_GENERATORS) as nat, seeded.1);
            &&& (r is Ok <==> floors.len() >= 1 + N_MONSTERS + N_GENERATORS)
            &&& r is Err ==> *final(rng) == seeded.1
            &&& r is Ok ==> {
                &&& *final(rng) == placed.1
                &&& forall|k: int|
                    0 <= k < 1 + N_MONSTERS + N_GENERATORS ==> (#[trigger] final(world).actors@[k]).position
                        == placed.0[k]
                &&& forall|x: int, y: int|
                    0 <= x < w && 0 <= y < h ==> (#[trigger] final(world).cells()[y][x]).cell_type == terrain_of(
                        cave[y][x],
                    )
            }
        }),
{
    let ghost g0 = *rng;
    let w = world.width;
    let h = world.height;
    assert(world.cells().len() == h);
    let mut g = seed_grid(w, h, rng);
    let ghost seeded = seed_rows(w as int, h as int, 0, g0);
    let mut i: usize = 0;
    while i < GENERATIONS
        invariant
            g@.map_values(|r: Vec<u8>| r@) == smoothed(seeded.0, w as int, h as int, i as nat),
            *rng == seeded.1,
            i <= GENERATIONS,
            walled(g@.map_values(|r: Vec<u8>| r@), w as int, h as int),
            w + 5 <= usize::MAX,
            h + 5 <= usize::MAX,
            w > 0,
            h > 0,
        decreases GENERATIONS - i,
    {
        g = ca_step(&g, w, h);
        assert(walled(g@.map_values(|r: Vec<u8>| r@), w as int, h as int));
        i = i + 1;
    }
    let ghost gv = g@.map_values(|r: Vec<u8>| r@);
    assert forall|y: int| 0 <= y < h implies (#[trigger] g@[y])@.len() == w by {
        assert(gv[y].len() == w);
    }
    let mut floors = floor_cells(&g, w, h);
    let ghost all_floors = floors@;
    let ghost placement = picks(all_floors, (1 + N_MONSTERS + N_GENERATORS) as nat, seeded.1);
    if floors.len() < 1 + N_MONSTERS + N_GENERATORS {
        return Err(GenerateError::MapTooDense);
    }
    proof {
        lemma_picks_len(all_floors, (1 + N_MONSTERS + N_GENERATORS) as nat, seeded.1);
    }
    let idx = rng.below(floors.len());
    let start = floors.remove(idx);
    assert(picks(floors@, (N_MONSTERS + N_GENERATORS) as nat, *rng).0 =~= placement.0.subrange(1, 1 + N_MONSTERS + N_GENERATORS));
    world.reset_terrain(&g, start);
    let ghost base = *world;
    let mut placed: usize = 0;
    while placed < N_MONSTERS + N_GENERATORS
        invariant
            placement.0.len() == 1 + N_MONSTERS + N_GENERATORS,
            picks(floors@, (N_MONSTERS + N_GENERATORS - placed) as nat, *rng).0 == placement.0.subrange(
                1 + placed,
                1 + N_MONSTERS + N_GENERATORS,
            ),
            picks(floors@, (N_MONSTERS + N_GENERATORS - placed) as nat, *rng).1 == placement.1,
            forall|k: int| 0 <= k <= placed ==> (#[trigger] world.actors@[k]).position == placement.0[k],
            world.wf(),
            world.swept(),
            world.width == w,
            world.height == h,
            world.player_state == old(world).player_state,
            world.messages == old(world).messages,
            world.to_act@.len() == 0,
            placed <= N_MONSTERS + N_GENERATORS,
            world.actors@.len() == 1 + placed,
            world.actors@[0] == base.actors@[0],
            floors@.len() + placed >= N_MONSTERS + N_GENERATORS,
            floors@.no_duplicates(),
            forall|j: int|
                0 <= j < floors@.len() ==> world.in_bounds(#[trigger] floors@[j]) && world.cell(floors@[j]).actor
                    is None && world.cell(floors@[j]).cell_type == CellType::Floor,
            forall|x: int, y: int|
                0 <= x < w && 0 <= y < h ==> (#[trigger] world.cells()[y][x]).cell_type == terrain_of(g@[y]@[x]),
            forall|k: int| 0 <= k < world.actors@.len() ==> world.cell((#[trigger] world.actors@[k]).position).cell_type
                == CellType::Floor,
            forall|k: int|
                1 <= k <= N_MONSTERS && k < world.actors@.len() ==> fresh_kobold(#[trigger] world.actors@[k], world.actors@[k].position),
            forall|k: int|
                N_MONSTERS < k < world.actors@.len() ==> fresh_generator(#[trigger] world.actors@[k], world.actors@[k].position),
            alive(world.actors@[0]),
        decreases N_MONSTERS + N_GENERATORS - placed,
    {
        let ghost fl = floors@;
        let ghost gr = *rng;
        let ghost rest = picks(fl, (N_MONSTERS + N_GENERATORS - placed) as nat, gr);
        let idx = rng.below(floors.len());
        let p = floors.remove(idx);
        assert(rest.0[0] == p);
        assert(rest.0.drop_first() =~= picks(floors@, (N_MONSTERS + N_GENERATORS - placed - 1) as nat, *rng).0);
        assert(placement.0[1 + placed as int] == rest.0[0]);
        assert(placement.0.subrange(2 + placed as int, 1 + N_MONSTERS + N_GENERATORS) =~= rest.0.drop_first());
        let monster = if placed < N_MONSTERS {
            Actor::kobold()
        } else {
            Actor::kobold_generator()
        };
        world.add_actor(monster, p);
        assert forall|j: int| 0 <= j < floors@.len() implies world.in_bounds(#[trigger] floors@[j])
            && world.cell(floors@[j]).actor is None && world.cell(floors@[j]).cell_type == CellType::Floor by {
            assert(floors@[j] != p);
        }
        placed = placed + 1;
    }
    assert forall|x: int, y: int|
        0 <= x < w && 0 <= y < h && on_border(w as int, h as int, x, y) implies (#[trigger] world.cells()[y][x]).cell_type
        == CellType::Wall by {
        assert(gv[y][x] == 1);
    }
    assert(world.actors@[0] == (Actor { position: world.actors@[0].position, ..old(world).actors@[0] }));
    Ok(())
}

} // verus!
