//! The worker state machine: per-entity position, facing, movement and
//! mining cooldowns, and an optional queued path.

use std::collections::VecDeque;
use vstd::prelude::*;

use crate::GRID;

verus! {

/// Ticks a worker rests after stepping to a new cell.
pub const WORK_DELAY: u8 = 40;

/// Ticks a worker spends on one mining swing.
pub const MINE_DELAY: u8 = 100;

/// Ticks between the end of a rest and the next action.
pub const MOVE_DELAY: u8 = 30;

/// Direction the worker moved in last tick.
#[derive(Clone, Copy, Debug, PartialEq, Eq, Structural)]
pub enum Direction {
    Up,
    Right,
    Down,
    Left,
}

/// The abstract state of a worker.
#[verifier::ext_equal]
pub ghost struct WorkerView {
    pub x: int,
    pub y: int,
    pub last_x: int,
    pub last_y: int,
    pub path: Seq<(usize, usize)>,
    pub move_ticks: int,
    pub work_ticks: int,
}

/// Simple grid-based worker.
#[derive(Clone)]
pub struct Worker {
    pub x: usize,
    pub y: usize,
    pub last_x: usize,
    pub last_y: usize,
    pub path: VecDeque<(usize, usize)>,
    pub ticks_until_move: u8,
    pub work_ticks: u8,
}

/// Both coordinates of the pair lie on the grid.
pub open spec fn in_grid(p: (usize, usize)) -> bool {
    p.0 < GRID && p.1 < GRID
}

/// A well-formed worker state: positions on the grid, cooldowns
/// non-negative, every queued cell on the grid.
pub open spec fn view_wf(v: WorkerView) -> bool {
    &&& 0 <= v.x < GRID
    &&& 0 <= v.y < GRID
    &&& 0 <= v.last_x < GRID
    &&& 0 <= v.last_y < GRID
    &&& 0 <= v.move_ticks
    &&& 0 <= v.work_ticks
    &&& forall|i: int| 0 <= i < v.path.len() ==> in_grid(#[trigger] v.path[i])
}

/// Candidate cells for a random step: the in-grid axis neighbours of
/// (x, y), in a fixed order.
pub open spec fn neighbor_candidates(x: int, y: int) -> Seq<(usize, usize)> {
    let left: Seq<(usize, usize)> = if x > 0 {
        seq![(((x - 1) as usize), (y as usize))]
    } else {
        Seq::empty()
    };
    let right: Seq<(usize, usize)> = if x + 1 < GRID {
        seq![(((x + 1) as usize), (y as usize))]
    } else {
        Seq::empty()
    };
    let up: Seq<(usize, usize)> = if y > 0 {
        seq![((x as usize), ((y - 1) as usize))]
    } else {
        Seq::empty()
    };
    let down: Seq<(usize, usize)> = if y + 1 < GRID {
        seq![((x as usize), ((y + 1) as usize))]
    } else {
        Seq::empty()
    };
    left + right + up + down
}

/// One tick of the worker state machine.  The previous position is
/// recorded first, every tick.  A running mining or rest cooldown counts
/// down with no movement.  Otherwise the worker acts: on a rock it starts
/// a mining swing and reports a mining hit; with a queued path it steps
/// to the front cell; with neither it steps to the candidate neighbour
/// selected by `rand`.
pub open spec fn step_spec(v: WorkerView, on_rock: bool, rand: int) -> (WorkerView, bool) {
    let u = WorkerView { last_x: v.x, last_y: v.y, ..v };
    if v.work_ticks > 0 {
        (WorkerView { work_ticks: v.work_ticks - 1, ..u }, false)
    } else if v.move_ticks > 0 {
        (WorkerView { move_ticks: v.move_ticks - 1, ..u }, false)
    } else {
        let w = WorkerView { move_ticks: MOVE_DELAY as int, ..u };
        if on_rock {
            (WorkerView { work_ticks: MINE_DELAY as int, ..w }, true)
        } else if v.path.len() > 0 {
            (
                WorkerView {
                    x: v.path[0].0 as int,
                    y: v.path[0].1 as int,
                    path: v.path.drop_first(),
                    work_ticks: WORK_DELAY as int,
                    ..w
                },
                false,
            )
        } else {
            let c = neighbor_candidates(v.x, v.y);
            let t = c[rand % (c.len() as int)];
            (WorkerView { x: t.0 as int, y: t.1 as int, work_ticks: WORK_DELAY as int, ..w }, false)
        }
    }
}

impl View for Worker {
    type V = WorkerView;

    open spec fn view(&self) -> WorkerView {
        WorkerView {
            x: self.x as int,
            y: self.y as int,
            last_x: self.last_x as int,
            last_y: self.last_y as int,
            path: self.path@,
            move_ticks: self.ticks_until_move as int,
            work_ticks: self.work_ticks as int,
        }
    }
}

impl Worker {
    pub open spec fn wf(&self) -> bool {
        view_wf(self@)
    }

    pub fn new(x: usize, y: usize) -> (w: Self)
        requires
            x < GRID,
            y < GRID,
        ensures
            w.wf(),
            w@ == (WorkerView {
                x: x as int,
                y: y as int,
                last_x: x as int,
                last_y: y as int,
                path: Seq::empty(),
                move_ticks: 0,
                work_ticks: 0,
            }),
    {
        Self {
            x,
            y,
            last_x: x,
            last_y: y,
            path: VecDeque::new(),
            ticks_until_move: 0,
            work_ticks: 0,
        }
    }

    /// Rest for the given number of ticks, leaving everything else as it
    /// stands.
    pub fn pause(&mut self, ticks: u8)
        ensures
            final(self)@ == (WorkerView { work_ticks: ticks as int, ..old(self)@ }),
    {
        self.work_ticks = ticks;
    }

    /// Advance the state machine by one tick; see `step_spec`.
    pub fn update(&mut self, on_rock: bool, rand: u64) -> (mined: bool)
        requires
            old(self).wf(),
        ensures
            final(self).wf(),
            final(self)@ == step_spec(old(self)@, on_rock, rand as int).0,
            mined == step_spec(old(self)@, on_rock, rand as int).1,
    {
        self.last_x = self.x;
        self.last_y = self.y;

        if self.work_ticks > 0 {
            self.work_ticks = self.work_ticks - 1;
            proof {
                assert(self@.path == old(self)@.path);
                assert(view_wf(self@));
            }
            return false;
        }
        if self.ticks_until_move > 0 {
            self.ticks_until_move = self.ticks_until_move - 1;
            proof {
                assert(self@.path == old(self)@.path);
                assert(view_wf(self@));
            }
            return false;
        }
        self.ticks_until_move = MOVE_DELAY;

        if on_rock {
            self.work_ticks = MINE_DELAY;
            proof {
                assert(self@.path == old(self)@.path);
                assert(view_wf(self@));
            }
            return true;
        }
        if let Some((nx, ny)) = self.path.pop_front() {
            assert(in_grid(old(self)@.path[0]));
            self.x = nx;
            self.y = ny;
            self.work_ticks = WORK_DELAY;
            proof {
                assert(self@.path == old(self)@.path.drop_first());
                assert(view_wf(self@));
            }
            return false;
        }

        let mut cands: Vec<(usize, usize)> = Vec::new();
        if self.x > 0 {
            cands.push((self.x - 1, self.y));
        }
        if self.x + 1 < GRID {
            cands.push((self.x + 1, self.y));
        }
        if self.y > 0 {
            cands.push((self.x, self.y - 1));
        }
        if self.y + 1 < GRID {
            cands.push((self.x, self.y + 1));
        }
        proof {
            assert(cands@ =~= neighbor_candidates(old(self)@.x, old(self)@.y));
            assert(cands@.len() > 0);
        }
        let idx = (rand % (cands.len() as u64)) as usize;
        let (nx, ny) = cands[idx];
        self.x = nx;
        self.y = ny;
        self.work_ticks = WORK_DELAY;
        proof {
            let c = neighbor_candidates(old(self)@.x, old(self)@.y);
            assert(idx == (rand as int) % (c.len() as int));
            assert(in_grid(c[idx as int]));
            assert(self@.path == old(self)@.path);
            assert(view_wf(self@));
        }
        false
    }

    /// Facing is derived from the last tick's movement; a worker that did
    /// not move faces Right.
    pub fn direction(&self) -> (dir: Direction)
        ensures
            dir == direction_spec(self@),
    {
        if self.x > self.last_x {
            Direction::Right
        } else if self.x < self.last_x {
            Direction::Left
        } else if self.y > self.last_y {
            Direction::Down
        } else if self.y < self.last_y {
            Direction::Up
        } else {
            Direction::Right
        }
    }

    /// Queue a fresh path to (tx, ty): straight along y first, then along
    /// x, one grid step per entry.
    pub fn set_target(&mut self, tx: usize, ty: usize)
        requires
            old(self).wf(),
            tx < GRID,
            ty < GRID,
        ensures
            final(self).wf(),
            final(self)@ == (WorkerView {
                path: path_spec(old(self)@.x, old(self)@.y, tx as int, ty as int),
                ..old(self)@
            }),
    {
        self.path.clear();
        let ghost x0 = self@.x;
        let ghost y0 = self@.y;
        let mut cx = self.x;
        let mut cy = self.y;
        while cy < ty
            invariant
                self@.x == old(self)@.x,
                self@.y == old(self)@.y,
                self@.last_x == old(self)@.last_x,
                self@.last_y == old(self)@.last_y,
                self@.move_ticks == old(self)@.move_ticks,
                self@.work_ticks == old(self)@.work_ticks,
                cx == x0,
                0 <= cx < GRID,
                0 <= cy < GRID,
                ty < GRID,
                y0 <= cy <= ty || cy == y0,
                self.path@ + walk_y(cx as int, cy as int, ty as int) == walk_y(x0, y0, ty as int),
                forall|i: int| 0 <= i < self.path@.len() ==> in_grid(#[trigger] self.path@[i]),
            decreases ty - cy,
        {
            cy = cy + 1;
            self.path.push_back((cx, cy));
            proof {
                assert(self.path@ + walk_y(cx as int, cy as int, ty as int) =~= walk_y(
                    x0,
                    y0,
                    ty as int,
                ));
            }
        }
        while cy > ty
            invariant
                self@.x == old(self)@.x,
                self@.y == old(self)@.y,
                self@.last_x == old(self)@.last_x,
                self@.last_y == old(self)@.last_y,
                self@.move_ticks == old(self)@.move_ticks,
                self@.work_ticks == old(self)@.work_ticks,
                cx == x0,
                0 <= cx < GRID,
                0 <= cy < GRID,
                ty < GRID,
                ty <= cy,
                self.path@ + walk_y(cx as int, cy as int, ty as int) == walk_y(x0, y0, ty as int),
                forall|i: int| 0 <= i < self.path@.len() ==> in_grid(#[trigger] self.path@[i]),
            decreases cy - ty,
        {
            cy = cy - 1;
            self.path.push_back((cx, cy));
            proof {
                assert(self.path@ + walk_y(cx as int, cy as int, ty as int) =~= walk_y(
                    x0,
                    y0,
                    ty as int,
                ));
            }
        }
        proof {
            assert(self.path@ =~= walk_y(x0, y0, ty as int));
        }
        while cx < tx
            invariant
                self@.x == old(self)@.x,
                self@.y == old(self)@.y,
                self@.last_x == old(self)@.last_x,
                self@.last_y == old(self)@.last_y,
                self@.move_ticks == old(self)@.move_ticks,
                self@.work_ticks == old(self)@.work_ticks,
                cy == ty,
                0 <= cx < GRID,
                tx < GRID,
                ty < GRID,
                self.path@ + walk_x(cx as int, cy as int, tx as int) == walk_y(x0, y0, ty as int)
                    + walk_x(x0, ty as int, tx as int),
                forall|i: int| 0 <= i < self.path@.len() ==> in_grid(#[trigger] self.path@[i]),
            decreases tx - cx,
        {
            cx = cx + 1;
            self.path.push_back((cx, cy));
            proof {
                assert(self.path@ + walk_x(cx as int, cy as int, tx as int) =~= walk_y(
                    x0,
                    y0,
                    ty as int,
                ) + walk_x(x0, ty as int, tx as int));
            }
        }
        while cx > tx
            invariant
                self@.x == old(self)@.x,
                self@.y == old(self)@.y,
                self@.last_x == old(self)@.last_x,
                self@.last_y == old(self)@.last_y,
                self@.move_ticks == old(self)@.move_ticks,
                self@.work_ticks == old(self)@.work_ticks,
                cy == ty,
                0 <= cx < GRID,
                tx <= cx,
                ty < GRID,
                self.path@ + walk_x(cx as int, cy as int, tx as int) == walk_y(x0, y0, ty as int)
                    + walk_x(x0, ty as int, tx as int),
                forall|i: int| 0 <= i < self.path@.len() ==> in_grid(#[trigger] self.path@[i]),
            decreases cx - tx,
        {
            cx = cx - 1;
            self.path.push_back((cx, cy));
            proof {
                assert(self.path@ + walk_x(cx as int, cy as int, tx as int) =~= walk_y(
                    x0,
                    y0,
                    ty as int,
                ) + walk_x(x0, ty as int, tx as int));
            }
        }
        proof {
            assert(self.path@ =~= path_spec(x0, y0, tx as int, ty as int));
            assert(self@ =~= (WorkerView {
                path: path_spec(x0, y0, tx as int, ty as int),
                ..old(self)@
            }));
            assert(view_wf(self@));
        }
    }

    /// Returns (sprite_index, mirror_flag) for rendering.  A rock under
    /// the worker selects the mining frames, otherwise the idle frames;
    /// Left-facing mirrors the Right-facing art.
    pub fn sprite_info(&self, has_rock: bool) -> (info: (usize, bool))
        ensures
            info == sprite_spec(direction_spec(self@), has_rock),
    {
        match (has_rock, self.direction()) {
            (false, Direction::Up) => (0, false),
            (false, Direction::Right) => (1, false),
            (false, Direction::Down) => (2, false),
            (false, Direction::Left) => (1, true),
            (true, Direction::Up) => (3, false),
            (true, Direction::Right) => (4, false),
            (true, Direction::Down) => (5, false),
            (true, Direction::Left) => (4, true),
        }
    }
}

/// Facing derived from the last tick's movement; Right is the idle
/// default when there was no movement.
pub open spec fn direction_spec(v: WorkerView) -> Direction {
    if v.x > v.last_x {
        Direction::Right
    } else if v.x < v.last_x {
        Direction::Left
    } else if v.y > v.last_y {
        Direction::Down
    } else if v.y < v.last_y {
        Direction::Up
    } else {
        Direction::Right
    }
}

/// The fixed sprite lookup table keyed by (facing, on a rock).
pub open spec fn sprite_spec(dir: Direction, has_rock: bool) -> (usize, bool) {
    match (has_rock, dir) {
        (false, Direction::Up) => (0usize, false),
        (false, Direction::Right) => (1usize, false),
        (false, Direction::Down) => (2usize, false),
        (false, Direction::Left) => (1usize, true),
        (true, Direction::Up) => (3usize, false),
        (true, Direction::Right) => (4usize, false),
        (true, Direction::Down) => (5usize, false),
        (true, Direction::Left) => (4usize, true),
    }
}

/// The straight walk along y from (cx, cy) towards y-coordinate ty, one
/// cell per entry, excluding the start and including the end.
pub open spec fn walk_y(cx: int, cy: int, ty: int) -> Seq<(usize, usize)>
    decreases (if cy <= ty {
        ty - cy
    } else {
        cy - ty
    }),
{
    if cy < ty {
        seq![((cx as usize), ((cy + 1) as usize))] + walk_y(cx, cy + 1, ty)
    } else if cy > ty {
        seq![((cx as usize), ((cy - 1) as usize))] + walk_y(cx, cy - 1, ty)
    } else {
        Seq::empty()
    }
}

/// The straight walk along x from (cx, cy) towards x-coordinate tx.
pub open spec fn walk_x(cx: int, cy: int, tx: int) -> Seq<(usize, usize)>
    decreases (if cx <= tx {
        tx - cx
    } else {
        cx - tx
    }),
{
    if cx < tx {
        seq![(((cx + 1) as usize), (cy as usize))] + walk_x(cx + 1, cy, tx)
    } else if cx > tx {
        seq![(((cx - 1) as usize), (cy as usize))] + walk_x(cx - 1, cy, tx)
    } else {
        Seq::empty()
    }
}

/// The whole queued path: straight in y first, then straight in x.
pub open spec fn path_spec(cx: int, cy: int, tx: int, ty: int) -> Seq<(usize, usize)> {
    walk_y(cx, cy, ty) + walk_x(cx, ty, tx)
}

/// The number of grid steps between two coordinates on one axis.
pub open spec fn dist(a: int, b: int) -> int {
    if a <= b {
        b - a
    } else {
        a - b
    }
}

/// The two cells differ by exactly one grid step along one axis.
pub open spec fn step_apart(a: (usize, usize), b: (usize, usize)) -> bool {
    ||| (a.0 == b.0 && dist(a.1 as int, b.1 as int) == 1)
    ||| (a.1 == b.1 && dist(a.0 as int, b.0 as int) == 1)
}

proof fn lemma_walk_y_shape(cx: int, cy: int, ty: int)
    requires
        0 <= cx < GRID,
        0 <= cy < GRID,
        0 <= ty < GRID,
    ensures
        walk_y(cx, cy, ty).len() == dist(cy, ty),
        forall|i: int|
            0 <= i < walk_y(cx, cy, ty).len() ==> (#[trigger] walk_y(cx, cy, ty)[i]) == ((
            cx as usize,
            (if cy < ty {
                cy + i + 1
            } else {
                cy - i - 1
            }) as usize,
        )),
    decreases dist(cy, ty),
{
    if cy < ty {
        lemma_walk_y_shape(cx, cy + 1, ty);
    } else if cy > ty {
        lemma_walk_y_shape(cx, cy - 1, ty);
    }
}

proof fn lemma_walk_x_shape(cx: int, cy: int, tx: int)
    requires
        0 <= cx < GRID,
        0 <= cy < GRID,
        0 <= tx < GRID,
    ensures
        walk_x(cx, cy, tx).len() == dist(cx, tx),
        forall|i: int|
            0 <= i < walk_x(cx, cy, tx).len() ==> (#[trigger] walk_x(cx, cy, tx)[i]) == ((
            (if cx < tx {
                cx + i + 1
            } else {
                cx - i - 1
            }) as usize,
            cy as usize,
        )),
    decreases dist(cx, tx),
{
    if cx < tx {
        lemma_walk_x_shape(cx + 1, cy, tx);
    } else if cx > tx {
        lemma_walk_x_shape(cx - 1, cy, tx);
    }
}

/// Law: the path queued towards a target holds one cell per grid step of
/// distance, each cell one step from its predecessor (and the first one
/// step from the start), and it ends at the target.
pub proof fn lemma_path_shape(cx: int, cy: int, tx: int, ty: int)
    requires
        0 <= cx < GRID,
        0 <= cy < GRID,
        0 <= tx < GRID,
        0 <= ty < GRID,
    ensures
        path_spec(cx, cy, tx, ty).len() == dist(cy, ty) + dist(cx, tx),
        forall|i: int|
            0 <= i < path_spec(cx, cy, tx, ty).len() - 1 ==> step_apart(
                #[trigger] path_spec(cx, cy, tx, ty)[i],
                path_spec(cx, cy, tx, ty)[i + 1],
            ),
        path_spec(cx, cy, tx, ty).len() > 0 ==> step_apart(
            ((cx as usize), (cy as usize)),
            path_spec(cx, cy, tx, ty)[0],
        ),
        path_spec(cx, cy, tx, ty).len() > 0 ==> path_spec(cx, cy, tx, ty).last() == ((
            tx as usize,
            ty as usize,
        )),
        path_spec(cx, cy, tx, ty).len() == 0 ==> cx == tx && cy == ty,
{
    lemma_walk_y_shape(cx, cy, ty);
    lemma_walk_x_shape(cx, ty, tx);
    let p = path_spec(cx, cy, tx, ty);
    let ny = dist(cy, ty);
    assert forall|i: int| 0 <= i < p.len() - 1 implies step_apart(
        #[trigger] p[i],
        p[i + 1],
    ) by {
        assert(p[i] == if i < ny {
            walk_y(cx, cy, ty)[i]
        } else {
            walk_x(cx, ty, tx)[i - ny]
        });
        assert(p[i + 1] == if i + 1 < ny {
            walk_y(cx, cy, ty)[i + 1]
        } else {
            walk_x(cx, ty, tx)[i + 1 - ny]
        });
    }
    if p.len() > 0 {
        assert(p.last() == if p.len() - 1 < ny {
            walk_y(cx, cy, ty)[p.len() - 1]
        } else {
            walk_x(cx, ty, tx)[p.len() - 1 - ny]
        });
    }
}

/// Law: a worker whose previous position equals its position — as right
/// after construction, before any movement — faces Right.
pub proof fn lemma_unmoved_faces_right(v: WorkerView)
    requires
        v.last_x == v.x,
        v.last_y == v.y,
    ensures
        direction_spec(v) == Direction::Right,
{
}

/// The worker state after a run of ticks that all find a rock under it.
pub open spec fn on_rock_run(v: WorkerView, rands: Seq<int>) -> WorkerView
    decreases rands.len(),
{
    if rands.len() == 0 {
        v
    } else {
        on_rock_run(step_spec(v, true, rands[0]).0, rands.drop_first())
    }
}

/// Law: a worker that stands on a rock every tick never changes
/// position, however many ticks pass and whatever randomness arrives:
/// mining never moves the worker.
pub proof fn lemma_on_rock_never_moves(v: WorkerView, rands: Seq<int>)
    ensures
        on_rock_run(v, rands).x == v.x,
        on_rock_run(v, rands).y == v.y,
    decreases rands.len(),
{
    if rands.len() > 0 {
        lemma_on_rock_never_moves(step_spec(v, true, rands[0]).0, rands.drop_first());
    }
}

} // verus!
