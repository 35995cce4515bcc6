//! The field of minable rocks: a mapping from grid cells to remaining
//! hit counts, depleted one hit at a time and removed once destroyed.

use vstd::prelude::*;

use crate::GRID;

verus! {

/// Number of hits a freshly placed rock withstands before it is destroyed.
pub const ROCK_HITS: u8 = 3;

/// A field of rocks on the tile grid, each with a remaining hit count.
/// Once a rock has been mined `ROCK_HITS` times it disappears for good.
pub struct RockField {
    /// Remaining hits per cell, row-major over the grid; 0 means no rock.
    cells: Vec<u8>,
}

/// The abstract contents of a cell array: every in-grid cell with a
/// positive count, mapped to that count.
pub closed spec fn rock_map_of(cells: Seq<u8>) -> Map<(int, int), int> {
    Map::new(
        |p: (int, int)|
            0 <= p.0 < GRID && 0 <= p.1 < GRID && cells[p.1 * GRID + p.0] > 0,
        |p: (int, int)| cells[p.1 * GRID + p.0] as int,
    )
}

/// The contents a rock field starts with: every listed position mapped to
/// the full hit count (duplicates collapse to the same entry).
pub open spec fn initial_rocks(positions: Seq<(usize, usize)>) -> Map<(int, int), int> {
    Map::new(
        |p: (int, int)|
            exists|i: int|
                0 <= i < positions.len() && positions[i].0 == p.0 && positions[i].1 == p.1,
        |p: (int, int)| ROCK_HITS as int,
    )
}

/// One mining hit at (x, y): if a rock is tracked there, its count drops
/// by one, and the entry disappears when the count reaches zero.  The
/// boolean reports whether this very hit destroyed the rock.
pub open spec fn mine_step(rocks: Map<(int, int), int>, x: int, y: int) -> (Map<
    (int, int),
    int,
>, bool) {
    if rocks.dom().contains((x, y)) {
        if rocks[(x, y)] <= 1 {
            (rocks.remove((x, y)), true)
        } else {
            (rocks.insert((x, y), rocks[(x, y)] - 1), false)
        }
    } else {
        (rocks, false)
    }
}

impl View for RockField {
    type V = Map<(int, int), int>;

    closed spec fn view(&self) -> Map<(int, int), int> {
        rock_map_of(self.cells@)
    }
}

impl RockField {
    /// Every tracked rock sits in the grid with a count in [1, ROCK_HITS].
    pub closed spec fn wf(&self) -> bool {
        &&& self.cells@.len() == GRID * GRID
        &&& forall|i: int| 0 <= i < self.cells@.len() ==> #[trigger] self.cells@[i] <= ROCK_HITS
    }

    /// Build with initial positions; each rock takes `ROCK_HITS` hits to
    /// destroy.
    pub fn new(positions: &[(usize, usize)]) -> (field: Self)
        requires
            forall|i: int|
                0 <= i < positions@.len() ==> (#[trigger] positions@[i]).0 < GRID
                    && positions@[i].1 < GRID,
        ensures
            field.wf(),
            field@ == initial_rocks(positions@),
    {
        let mut cells: Vec<u8> = Vec::new();
        let mut k: usize = 0;
        while k < GRID * GRID
            invariant
                k <= GRID * GRID,
                cells@.len() == k,
                forall|i: int| 0 <= i < k ==> #[trigger] cells@[i] == 0,
            decreases GRID * GRID - k,
        {
            cells.push(0);
            k = k + 1;
        }
        let mut j: usize = 0;
        while j < positions.len()
            invariant
                j <= positions@.len(),
                cells@.len() == GRID * GRID,
                forall|i: int|
                    0 <= i < cells@.len() ==> #[trigger] cells@[i] == 0 || cells@[i] == ROCK_HITS,
                forall|i: int|
                    0 <= i < positions@.len() ==> (#[trigger] positions@[i]).0 < GRID
                        && positions@[i].1 < GRID,
                forall|p: (int, int)|
                    0 <= p.0 < GRID && 0 <= p.1 < GRID ==> ((#[trigger] cells@[p.1 * GRID + p.0])
                        > 0 <==> exists|i: int|
                        0 <= i < j && (#[trigger] positions@[i]).0 == p.0 && positions@[i].1
                            == p.1),
            decreases positions@.len() - j,
        {
            let (x, y) = positions[j];
            assert(positions@[j as int].0 == x && positions@[j as int].1 == y);
            let ghost prev = cells@;
            cells.set(y * GRID + x, ROCK_HITS);
            proof {
                assert forall|p: (int, int)| 0 <= p.0 < GRID && 0 <= p.1 < GRID implies ((
                #[trigger] cells@[p.1 * GRID + p.0]) > 0 <==> exists|i: int|
                    0 <= i < j + 1 && (#[trigger] positions@[i]).0 == p.0 && positions@[i].1
                        == p.1) by {
                    if p.0 == x && p.1 == y {
                        assert(cells@[p.1 * GRID + p.0] == ROCK_HITS);
                        assert(0 <= j < j + 1 && positions@[j as int].0 == p.0
                            && positions@[j as int].1 == p.1);
                    } else {
                        assert(p.1 * GRID + p.0 != y * GRID + x);
                        assert(cells@[p.1 * GRID + p.0] == prev[p.1 * GRID + p.0]);
                        if exists|i: int|
                            0 <= i < j + 1 && (#[trigger] positions@[i]).0 == p.0
                                && positions@[i].1 == p.1 {
                            let i = choose|i: int|
                                0 <= i < j + 1 && (#[trigger] positions@[i]).0 == p.0
                                    && positions@[i].1 == p.1;
                            assert(i != j);
                        }
                    }
                };
            }
            j = j + 1;
        }
        proof {
            assert(rock_map_of(cells@) =~= initial_rocks(positions@));
        }
        RockField { cells }
    }

    /// Whether a rock is currently tracked at (x, y).
    pub fn contains(&self, x: usize, y: usize) -> (present: bool)
        requires
            self.wf(),
        ensures
            present == self@.dom().contains((x as int, y as int)),
    {
        x < GRID && y < GRID && self.cells[y * GRID + x] > 0
    }

    /// Called when a worker mines at (x, y).  Returns `true` exactly when
    /// that hit destroyed the rock; a hit outside any tracked rock is a
    /// no-op.
    pub fn on_mine(&mut self, x: usize, y: usize) -> (destroyed: bool)
        requires
            old(self).wf(),
        ensures
            final(self).wf(),
            final(self)@ == mine_step(old(self)@, x as int, y as int).0,
            destroyed == mine_step(old(self)@, x as int, y as int).1,
    {
        if x < GRID && y < GRID {
            let idx = y * GRID + x;
            let count = self.cells[idx];
            if count > 0 {
                let rest = count - 1;
                self.cells.set(idx, rest);
                proof {
                    assert(final(self)@ =~= mine_step(old(self)@, x as int, y as int).0);
                }
                return rest == 0;
            }
        }
        proof {
            assert(final(self)@ =~= mine_step(old(self)@, x as int, y as int).0);
        }
        false
    }
}

/// The remaining rocks after n mining hits at (x, y).
pub open spec fn mined_rocks(rocks: Map<(int, int), int>, x: int, y: int, n: nat) -> Map<
    (int, int),
    int,
>
    decreases n,
{
    if n == 0 {
        rocks
    } else {
        mined_rocks(mine_step(rocks, x, y).0, x, y, (n - 1) as nat)
    }
}

/// What n mining hits at (x, y) return, in order.
pub open spec fn mine_results(rocks: Map<(int, int), int>, x: int, y: int, n: nat) -> Seq<bool>
    decreases n,
{
    if n == 0 {
        Seq::empty()
    } else {
        seq![mine_step(rocks, x, y).1] + mine_results(mine_step(rocks, x, y).0, x, y, (n - 1) as nat)
    }
}

/// Law: a rock with h remaining hits answers `false` to the first h - 1
/// mining hits, `true` to the h-th, and is no longer tracked afterwards.
pub proof fn lemma_mine_depletes(rocks: Map<(int, int), int>, x: int, y: int, h: int)
    requires
        rocks.dom().contains((x, y)),
        rocks[(x, y)] == h,
        h >= 1,
    ensures
        mine_results(rocks, x, y, h as nat).len() == h,
        forall|k: int| 0 <= k < h - 1 ==> !(#[trigger] mine_results(rocks, x, y, h as nat)[k]),
        mine_results(rocks, x, y, h as nat)[h - 1],
        !mined_rocks(rocks, x, y, h as nat).dom().contains((x, y)),
    decreases h,
{
    let (next, first) = mine_step(rocks, x, y);
    if h == 1 {
        reveal_with_fuel(mine_results, 2);
        reveal_with_fuel(mined_rocks, 2);
        assert(mine_results(rocks, x, y, 1nat) =~= seq![true]);
    } else {
        lemma_mine_depletes(next, x, y, h - 1);
        assert forall|k: int| 0 <= k < h - 1 implies !(#[trigger] mine_results(
            rocks,
            x,
            y,
            h as nat,
        )[k]) by {
            if k > 0 {
                assert(mine_results(rocks, x, y, h as nat)[k] == mine_results(
                    next,
                    x,
                    y,
                    (h - 1) as nat,
                )[k - 1]);
            }
        }
        assert(mine_results(rocks, x, y, h as nat)[h - 1] == mine_results(
            next,
            x,
            y,
            (h - 1) as nat,
        )[h - 2]);
    }
}

/// Law: a mining hit anywhere no rock is tracked leaves the field
/// unchanged and reports no destruction.
pub proof fn lemma_mine_untracked(rocks: Map<(int, int), int>, x: int, y: int)
    requires
        !rocks.dom().contains((x, y)),
    ensures
        mine_step(rocks, x, y).0 == rocks,
        !mine_step(rocks, x, y).1,
{
}

} // verus!
