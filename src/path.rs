use vstd::prelude::*;

use crate::util::{adjacent, Point};
use crate::world::{CellType, World};

verus! {

/// `path` leads from `from` to `to` over floor: each step is a floor cell of
/// the map next to the one before (the first one next to `from`), and the
/// last step is `to`. `from` itself is not part of it.
pub open spec fn valid_path(w: World, from: Point, to: Point, path: Seq<Point>) -> bool {
    &&& path.len() > 0
    &&& forall|i: int|
        0 <= i < path.len() ==> w.in_bounds(#[trigger] path[i]) && w.cell(path[i]).cell_type
            == CellType::Floor
    &&& adjacent(from, path[0])
    &&& forall|i: int| 0 < i < path.len() ==> adjacent(path[i - 1], #[trigger] path[i])
    &&& path.last() == to
}

/// Whether `path` leads from `from` to `to` over floor cells of `world`.
pub fn check_path(world: &World, from: &Point, to: &Point, path: &Vec<Point>) -> (r: bool)
    requires
        world.shaped(),
    ensures
        r == valid_path(*world, *from, *to, path@),
{
    let n = path.len();
    if n == 0 {
        return false;
    }
    if !from.is_adjacent_to(&path[0]) {
        return false;
    }
    if path[n - 1] != *to {
        return false;
    }
    let mut i: usize = 0;
    while i < n
        invariant
            n == path@.len(),
            n > 0,
            i <= n,
            world.shaped(),
            adjacent(*from, path@[0]),
            path@.last() == *to,
            forall|j: int|
                0 <= j < i ==> world.in_bounds(#[trigger] path@[j]) && world.cell(path@[j]).cell_type
                    == CellType::Floor,
            forall|j: int| 0 < j < i ==> adjacent(path@[j - 1], #[trigger] path@[j]),
        decreases n - i,
    {
        let p = path[i];
        if !world.is_valid(&p) {
            return false;
        }
        match world.get_cell(p.x, p.y).cell_type {
            CellType::Wall => {
                return false;
            },
            CellType::Floor => {},
        }
        if i > 0 && !path[i - 1].is_adjacent_to(&p) {
            return false;
        }
        i = i + 1;
    }
    true
}

} // verus!
