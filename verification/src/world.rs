//! The per-frame simulation: every worker takes a turn (mining, path
//! following or wandering, building collision), destroyed rocks spawn
//! floating reward labels, and live labels drift one tick onward.

use vstd::prelude::*;

use crate::GRID;
use crate::float_text::{FloatText, FloatTextView, LIFETIME, advance_step};
use crate::iso::{HALF_TILE_H, HALF_TILE_W, iso, iso_x, iso_y};
use crate::mining::{RockField, initial_rocks, mine_step};
use crate::worker::{WORK_DELAY, Worker, WorkerView, step_spec, view_wf};

verus! {

/// The abstract state of the whole simulation.
#[verifier::ext_equal]
pub ghost struct WorldView {
    pub rocks: Map<(int, int), int>,
    pub workers: Seq<WorkerView>,
    pub buildings: Seq<(usize, usize)>,
    pub floats: Seq<FloatTextView>,
}

/// All simulation state, owned in one place and advanced one frame at a
/// time.
pub struct World {
    pub rocks: RockField,
    pub workers: Vec<Worker>,
    pub buildings: Vec<(usize, usize)>,
    pub floats: Vec<FloatText>,
}

/// Whether any building occupies (x, y).
pub open spec fn hits_building(buildings: Seq<(usize, usize)>, x: int, y: int) -> bool {
    exists|i: int|
        0 <= i < buildings.len() && (#[trigger] buildings[i]).0 == x && buildings[i].1 == y
}

/// The floating label a rock destroyed at grid cell (x, y) leaves
/// behind, placed at the cell's projected screen position (in
/// thousandths) with a full lifetime.
pub open spec fn reward_label(x: int, y: int) -> FloatTextView {
    FloatTextView {
        x: iso_x(x, y, HALF_TILE_W as int) * 1000,
        y: iso_y(x, y, HALF_TILE_H as int) * 1000,
        label: "+1 Essence"@,
        life: LIFETIME as int,
    }
}

/// One worker's share of a frame.  The worker steps its state machine
/// with "on a rock" read at its old position; a mining hit is applied to
/// the rock there; if the move landed on a building, the position rolls
/// back to the old cell and the worker rests.  The boolean reports
/// whether this turn destroyed a rock.
pub open spec fn worker_frame(
    w: WorkerView,
    rocks: Map<(int, int), int>,
    buildings: Seq<(usize, usize)>,
    rand: int,
) -> (WorkerView, Map<(int, int), int>, bool) {
    let on_rock = rocks.dom().contains((w.x, w.y));
    let stepped = step_spec(w, on_rock, rand);
    let w1 = stepped.0;
    let mined = stepped.1;
    let rocks1 = if mined {
        mine_step(rocks, w.x, w.y).0
    } else {
        rocks
    };
    let destroyed = mined && mine_step(rocks, w.x, w.y).1;
    let w2 = if hits_building(buildings, w1.x, w1.y) {
        WorkerView { x: w.x, y: w.y, work_ticks: WORK_DELAY as int, ..w1 }
    } else {
        w1
    };
    (w2, rocks1, destroyed)
}

/// The world after the first n workers have taken their frame turn, in
/// order.
pub open spec fn workers_phase(v: WorldView, rands: Seq<u64>, n: nat) -> WorldView
    decreases n,
{
    if n == 0 {
        v
    } else {
        let prev = workers_phase(v, rands, (n - 1) as nat);
        let i = n - 1;
        let fr = worker_frame(
            prev.workers[i as int],
            prev.rocks,
            prev.buildings,
            rands[i as int] as int,
        );
        WorldView {
            workers: prev.workers.update(i as int, fr.0),
            rocks: fr.1,
            floats: if fr.2 {
                prev.floats.push(
                    reward_label(prev.workers[i as int].x, prev.workers[i as int].y),
                )
            } else {
                prev.floats
            },
            ..prev
        }
    }
}

/// Every live label advanced one tick, expired ones dropped, order kept.
pub open spec fn advance_floats(s: Seq<FloatTextView>) -> Seq<FloatTextView>
    decreases s.len(),
{
    if s.len() == 0 {
        s
    } else {
        let st = advance_step(s[0]);
        (if st.1 {
            seq![st.0]
        } else {
            Seq::empty()
        }) + advance_floats(s.drop_first())
    }
}

/// One whole frame: every worker takes its turn, then every floating
/// label (the ones spawned this frame included) drifts one tick.
pub open spec fn tick_frame(v: WorldView, rands: Seq<u64>) -> WorldView {
    let after = workers_phase(v, rands, v.workers.len());
    WorldView { floats: advance_floats(after.floats), ..after }
}

/// The state of a freshly created worker standing at (x, y).
pub open spec fn spawned_worker(x: int, y: int) -> WorkerView {
    WorkerView { x: x, y: y, last_x: x, last_y: y, path: Seq::empty(), move_ticks: 0, work_ticks: 0 }
}

/// Whether any building occupies (x, y).
fn building_at(buildings: &Vec<(usize, usize)>, x: usize, y: usize) -> (found: bool)
    ensures
        found == hits_building(buildings@, x as int, y as int),
{
    let mut i: usize = 0;
    while i < buildings.len()
        invariant
            i <= buildings@.len(),
            forall|j: int|
                0 <= j < i ==> !((#[trigger] buildings@[j]).0 == x && buildings@[j].1 == y),
        decreases buildings@.len() - i,
    {
        let (bx, by) = buildings[i];
        if bx == x && by == y {
            return true;
        }
        i = i + 1;
    }
    false
}

impl View for World {
    type V = WorldView;

    closed spec fn view(&self) -> WorldView {
        WorldView {
            rocks: self.rocks@,
            workers: self.workers@.map_values(|w: Worker| w@),
            buildings: self.buildings@,
            floats: self.floats@.map_values(|f: FloatText| f@),
        }
    }
}

impl World {
    /// Every worker and every label is well-formed, and so is the rock
    /// field.
    pub open spec fn wf(&self) -> bool {
        &&& self.rocks.wf()
        &&& forall|i: int| 0 <= i < self@.workers.len() ==> view_wf(#[trigger] self@.workers[i])
        &&& forall|i: int| 0 <= i < self.floats@.len() ==> (#[trigger] self.floats@[i]).wf()
    }

    /// The session's fixed seeds: three workers in the lower field, three
    /// rocks, two buildings, no labels yet.
    pub fn new() -> (w: World)
        ensures
            w.wf(),
            w@.rocks == initial_rocks(seq![(1usize, 8usize), (2usize, 7usize), (3usize, 9usize)]),
            w@.workers =~= seq![spawned_worker(6, 7), spawned_worker(6, 8), spawned_worker(6, 9)],
            w@.buildings =~= seq![(2usize, 1usize), (8usize, 1usize)],
            w@.floats =~= Seq::<FloatTextView>::empty(),
    {
        let rocks = RockField::new(&[(1, 8), (2, 7), (3, 9)]);
        let mut workers: Vec<Worker> = Vec::new();
        workers.push(Worker::new(6, 7));
        workers.push(Worker::new(6, 8));
        workers.push(Worker::new(6, 9));
        let mut buildings: Vec<(usize, usize)> = Vec::new();
        buildings.push((2, 1));
        buildings.push((8, 1));
        let world = World { rocks, workers, buildings, floats: Vec::new() };
        proof {
            assert(world@.workers =~= seq![
                spawned_worker(6, 7),
                spawned_worker(6, 8),
                spawned_worker(6, 9),
            ]);
            assert(world@.floats =~= Seq::<FloatTextView>::empty());
            assert([(1usize, 8usize), (2usize, 7usize), (3usize, 9usize)]@ =~= seq![
                (1usize, 8usize),
                (2usize, 7usize),
                (3usize, 9usize),
            ]);
        }
        world
    }

    /// Append one freshly minted worker at (x, 0).
    pub fn mint_human(&mut self, x: usize)
        requires
            old(self).wf(),
            x < GRID,
        ensures
            final(self).wf(),
            final(self)@ == (WorldView {
                workers: old(self)@.workers.push(spawned_worker(x as int, 0)),
                ..old(self)@
            }),
    {
        self.workers.push(Worker::new(x, 0));
        proof {
            assert(self@.workers =~= old(self)@.workers.push(spawned_worker(x as int, 0)));
            assert(self@ =~= (WorldView {
                workers: old(self)@.workers.push(spawned_worker(x as int, 0)),
                ..old(self)@
            }));
        }
    }

    /// Advance the whole simulation by one frame; `rands` supplies one
    /// drawn random value per worker, consumed in order.
    pub fn tick(&mut self, rands: &[u64])
        requires
            old(self).wf(),
            rands@.len() == old(self)@.workers.len(),
        ensures
            final(self).wf(),
            final(self)@ == tick_frame(old(self)@, rands@),
    {
        let n = self.workers.len();
        let mut i: usize = 0;
        while i < n
            invariant
                i <= n,
                n == old(self)@.workers.len(),
                rands@.len() == n,
                self.workers@.len() == n,
                self@ == workers_phase(old(self)@, rands@, i as nat),
                self.rocks.wf(),
                forall|j: int|
                    0 <= j < self@.workers.len() ==> view_wf(#[trigger] self@.workers[j]),
                forall|j: int| 0 <= j < self.floats@.len() ==> (#[trigger] self.floats@[j]).wf(),
            decreases n - i,
        {
            let ghost pre = self@;
            let mut w = self.workers.remove(i);
            proof {
                assert(w@ == pre.workers[i as int]);
                assert(view_wf(w@));
            }
            let wx = w.x;
            let wy = w.y;
            let on_rock = self.rocks.contains(wx, wy);
            let mined = w.update(on_rock, rands[i]);
            let ghost fr = worker_frame(
                pre.workers[i as int],
                pre.rocks,
                pre.buildings,
                rands@[i as int] as int,
            );
            if mined {
                let destroyed = self.rocks.on_mine(wx, wy);
                if destroyed {
                    let (sx, sy) = iso(wx, wy, HALF_TILE_W, HALF_TILE_H);
                    let label = FloatText::new(sx * 1000, sy * 1000, "+1 Essence");
                    proof {
                        assert(label@ =~= reward_label(
                            pre.workers[i as int].x,
                            pre.workers[i as int].y,
                        ));
                    }
                    self.floats.push(label);
                }
            }
            if building_at(&self.buildings, w.x, w.y) {
                w.x = wx;
                w.y = wy;
                w.pause(WORK_DELAY);
            }
            proof {
                assert(w@ =~= fr.0);
                assert(view_wf(w@));
            }
            self.workers.insert(i, w);
            proof {
                assert(self@.workers =~= pre.workers.update(i as int, fr.0));
                assert(self@.floats =~= if fr.2 {
                    pre.floats.push(
                        reward_label(pre.workers[i as int].x, pre.workers[i as int].y),
                    )
                } else {
                    pre.floats
                });
                assert(self@ =~= workers_phase(old(self)@, rands@, (i + 1) as nat));
            }
            i = i + 1;
        }
        let ghost after = self@;
        let mut kept: Vec<FloatText> = Vec::new();
        while self.floats.len() > 0
            invariant
                self@.rocks == after.rocks,
                self@.workers == after.workers,
                self@.buildings == after.buildings,
                self.rocks.wf(),
                forall|j: int|
                    0 <= j < self@.workers.len() ==> view_wf(#[trigger] self@.workers[j]),
                forall|j: int| 0 <= j < self.floats@.len() ==> (#[trigger] self.floats@[j]).wf(),
                forall|j: int| 0 <= j < kept@.len() ==> (#[trigger] kept@[j]).wf(),
                kept@.map_values(|f: FloatText| f@) + advance_floats(self@.floats)
                    == advance_floats(after.floats),
            decreases self.floats@.len(),
        {
            let ghost remaining = self@.floats;
            let mut f = self.floats.remove(0);
            proof {
                assert(f@ == remaining[0]);
            }
            let alive = f.update();
            if alive {
                kept.push(f);
            }
            proof {
                assert(self@.floats =~= remaining.drop_first());
                assert(kept@.map_values(|f: FloatText| f@) + advance_floats(self@.floats)
                    =~= advance_floats(after.floats));
            }
        }
        self.floats = kept;
        proof {
            assert(self@.floats =~= advance_floats(after.floats));
            assert(self@ =~= tick_frame(old(self)@, rands@));
        }
    }
}

} // verus!
