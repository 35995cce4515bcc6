//! Pan/zoom camera driven by pointer-drag and wheel input.
//!
//! Pan offsets and pointer positions are whole screen units; the zoom
//! scale is kept in thousandths of 1x so that clamping is exact.

use vstd::prelude::*;

verus! {

/// Smallest zoom scale, in thousandths (0.5x).
pub const MIN_SCALE: i64 = 500;

/// Largest zoom scale, in thousandths (3.0x).
pub const MAX_SCALE: i64 = 3000;

/// Zoom scale a fresh camera starts with, in thousandths (1.0x).
pub const START_SCALE: i64 = 1000;

/// The sum of a and b, saturated to the i64 range.
pub open spec fn sat_add(a: int, b: int) -> int {
    if a + b > i64::MAX {
        i64::MAX as int
    } else if a + b < i64::MIN {
        i64::MIN as int
    } else {
        a + b
    }
}

/// One wheel update: the scale moves opposite the wheel delta and is
/// clamped to [MIN_SCALE, MAX_SCALE].
pub open spec fn zoom_step(scale: int, delta: int) -> int {
    if scale - delta < MIN_SCALE {
        MIN_SCALE as int
    } else if scale - delta > MAX_SCALE {
        MAX_SCALE as int
    } else {
        scale - delta
    }
}

/// The scale left after a whole sequence of wheel updates.
pub open spec fn zoom_run(scale: int, deltas: Seq<int>) -> int
    decreases deltas.len(),
{
    if deltas.len() == 0 {
        scale
    } else {
        zoom_run(zoom_step(scale, deltas[0]), deltas.drop_first())
    }
}

/// Simple 2-D camera with pan & zoom.
pub struct Camera {
    pub offset_x: i64,
    pub offset_y: i64,
    /// zoom scale in thousandths of 1x, always within [MIN_SCALE, MAX_SCALE]
    pub scale: i64,
    pub dragging: bool,
    pub last_mouse_x: i32,
    pub last_mouse_y: i32,
}

/// The sum of a and b, saturated to the i64 range.
fn sat_add_i64(a: i64, b: i64) -> (r: i64)
    ensures
        r == sat_add(a as int, b as int),
{
    if b >= 0 {
        if a <= i64::MAX - b {
            a + b
        } else {
            i64::MAX
        }
    } else {
        if a >= i64::MIN - b {
            a + b
        } else {
            i64::MIN
        }
    }
}

impl Camera {
    /// The zoom scale never leaves its clamped range.
    pub open spec fn wf(&self) -> bool {
        MIN_SCALE <= self.scale <= MAX_SCALE
    }

    /// The pointer position remembered from the last drag event.
    pub open spec fn anchor(&self) -> (int, int) {
        (self.last_mouse_x as int, self.last_mouse_y as int)
    }

    pub fn new() -> (cam: Self)
        ensures
            cam.wf(),
            cam.offset_x == 0,
            cam.offset_y == 0,
            cam.scale == START_SCALE,
            !cam.dragging,
            cam.anchor() == (0int, 0int),
    {
        Self {
            offset_x: 0,
            offset_y: 0,
            scale: START_SCALE,
            dragging: false,
            last_mouse_x: 0,
            last_mouse_y: 0,
        }
    }

    /// Begin a drag at the given pointer position.
    pub fn start_drag(&mut self, x: i32, y: i32)
        ensures
            final(self).dragging,
            final(self).anchor() == (x as int, y as int),
            final(self).offset_x == old(self).offset_x,
            final(self).offset_y == old(self).offset_y,
            final(self).scale == old(self).scale,
    {
        self.dragging = true;
        self.last_mouse_x = x;
        self.last_mouse_y = y;
    }

    pub fn end_drag(&mut self)
        ensures
            !final(self).dragging,
            final(self).anchor() == old(self).anchor(),
            final(self).offset_x == old(self).offset_x,
            final(self).offset_y == old(self).offset_y,
            final(self).scale == old(self).scale,
    {
        self.dragging = false;
    }

    /// Pan by the pointer motion since the last drag event; a drag event
    /// while no drag is active changes nothing.
    pub fn drag(&mut self, x: i32, y: i32)
        ensures
            old(self).dragging ==> {
                &&& final(self).offset_x == sat_add(
                    old(self).offset_x as int,
                    x - old(self).anchor().0,
                )
                &&& final(self).offset_y == sat_add(
                    old(self).offset_y as int,
                    y - old(self).anchor().1,
                )
                &&& final(self).anchor() == (x as int, y as int)
                &&& final(self).dragging
                &&& final(self).scale == old(self).scale
            },
            !old(self).dragging ==> *final(self) == *old(self),
    {
        if self.dragging {
            let dx = x as i64 - self.last_mouse_x as i64;
            let dy = y as i64 - self.last_mouse_y as i64;
            self.offset_x = sat_add_i64(self.offset_x, dx);
            self.offset_y = sat_add_i64(self.offset_y, dy);
            self.last_mouse_x = x;
            self.last_mouse_y = y;
        }
    }

    /// Apply one wheel delta (whole units of scroll) to the zoom scale,
    /// clamping it to [MIN_SCALE, MAX_SCALE].
    pub fn zoom_by(&mut self, delta: i64)
        requires
            old(self).wf(),
        ensures
            final(self).wf(),
            final(self).scale == zoom_step(old(self).scale as int, delta as int),
            final(self).offset_x == old(self).offset_x,
            final(self).offset_y == old(self).offset_y,
            final(self).dragging == old(self).dragging,
            final(self).anchor() == old(self).anchor(),
    {
        let s = self.scale;
        let next = if delta >= 0 {
            let v = s - delta;
            if v < MIN_SCALE {
                MIN_SCALE
            } else {
                v
            }
        } else {
            if delta < s - MAX_SCALE {
                MAX_SCALE
            } else {
                s - delta
            }
        };
        self.scale = next;
    }
}

/// Law: starting inside [MIN_SCALE, MAX_SCALE], the zoom scale is still
/// inside that range after any sequence of wheel updates, whatever their
/// deltas.
pub proof fn lemma_zoom_always_clamped(scale: int, deltas: Seq<int>)
    requires
        MIN_SCALE <= scale <= MAX_SCALE,
    ensures
        MIN_SCALE <= zoom_run(scale, deltas) <= MAX_SCALE,
    decreases deltas.len(),
{
    if deltas.len() > 0 {
        lemma_zoom_always_clamped(zoom_step(scale, deltas[0]), deltas.drop_first());
    }
}

} // verus!
