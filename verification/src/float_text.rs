//! Ephemeral labels that drift upward for a fixed number of ticks and
//! then expire, spawned when a rock is destroyed.

use vstd::prelude::*;

verus! {

/// Ticks a label stays alive after creation.
pub const LIFETIME: u8 = 60;

/// Upward drift per tick, in thousandths of a screen unit (0.5 units).
pub const RISE_PER_TICK: i64 = 500;

/// The abstract state of a floating label.
#[verifier::ext_equal]
pub ghost struct FloatTextView {
    pub x: int,
    pub y: int,
    pub label: Seq<char>,
    pub life: int,
}

/// A little text label that floats upward and then expires.  Both
/// coordinates are in thousandths of a screen unit.
pub struct FloatText {
    pub x: i64,
    pub y: i64,
    pub text: String,
    lifetime: u8,
}

/// One tick of a label: while it still has life left, it rises by
/// `RISE_PER_TICK` and stays alive; once its life is spent, it reports
/// expiry and no longer changes.
pub open spec fn advance_step(f: FloatTextView) -> (FloatTextView, bool) {
    if f.life <= 0 {
        (f, false)
    } else {
        (FloatTextView { y: f.y - RISE_PER_TICK, life: f.life - 1, ..f }, true)
    }
}

/// The label's state after n ticks.
pub open spec fn advanced(f: FloatTextView, n: nat) -> FloatTextView
    decreases n,
{
    if n == 0 {
        f
    } else {
        advance_step(advanced(f, (n - 1) as nat)).0
    }
}

/// What the first n ticks of the label return, in order.
pub open spec fn advance_results(f: FloatTextView, n: nat) -> Seq<bool>
    decreases n,
{
    if n == 0 {
        Seq::empty()
    } else {
        advance_results(f, (n - 1) as nat).push(advance_step(advanced(f, (n - 1) as nat)).1)
    }
}

impl View for FloatText {
    type V = FloatTextView;

    closed spec fn view(&self) -> FloatTextView {
        FloatTextView {
            x: self.x as int,
            y: self.y as int,
            label: self.text@,
            life: self.lifetime as int,
        }
    }
}

impl FloatText {
    /// The label never outlives its starting lifetime, and always has
    /// room to finish its drift without leaving the i64 range.
    pub closed spec fn wf(&self) -> bool {
        &&& self.lifetime <= LIFETIME
        &&& self.y >= i64::MIN + RISE_PER_TICK * self.lifetime
    }

    /// Start at (x, y) with the given label and a full lifetime.
    pub fn new(x: i64, y: i64, text: &str) -> (ft: Self)
        requires
            y >= i64::MIN + RISE_PER_TICK * LIFETIME,
        ensures
            ft.wf(),
            ft@ == (FloatTextView { x: x as int, y: y as int, label: text@, life: LIFETIME as int }),
    {
        FloatText { x, y, text: text.to_string(), lifetime: LIFETIME }
    }

    /// Returns `true` while still alive; also advances the position.
    pub fn update(&mut self) -> (alive: bool)
        requires
            old(self).wf(),
        ensures
            final(self).wf(),
            final(self)@ == advance_step(old(self)@).0,
            alive == advance_step(old(self)@).1,
    {
        if self.lifetime == 0 {
            return false;
        }
        self.y = self.y - RISE_PER_TICK;
        self.lifetime = self.lifetime - 1;
        true
    }
}

/// Law: a label with k ticks of life left answers `true` to each of its
/// next k ticks, sits k rises below its starting height afterwards, and
/// answers `false` to the tick after that.
pub proof fn lemma_advance_run(f: FloatTextView, k: int)
    requires
        0 <= k <= f.life,
    ensures
        advanced(f, k as nat).x == f.x,
        advanced(f, k as nat).label == f.label,
        advanced(f, k as nat).life == f.life - k,
        advanced(f, k as nat).y == f.y - RISE_PER_TICK * k,
        advance_results(f, k as nat).len() == k,
        forall|i: int| 0 <= i < k ==> #[trigger] advance_results(f, k as nat)[i],
        k == f.life ==> !advance_step(advanced(f, k as nat)).1,
    decreases k,
{
    if k > 0 {
        lemma_advance_run(f, k - 1);
        assert(advance_results(f, k as nat) == advance_results(f, (k - 1) as nat).push(
            advance_step(advanced(f, (k - 1) as nat)).1,
        ));
    }
}

} // verus!
