//! Session flags: the start-once guard and the periodic auto-mint
//! toggle, held as explicit fields rather than ambient globals.

use vstd::prelude::*;

verus! {

/// Flags that outlive any one frame: whether the session has begun, and
/// whether workers are minted periodically.
pub struct Session {
    pub started: bool,
    pub auto_mint: bool,
}

impl Session {
    pub fn new() -> (s: Self)
        ensures
            !s.started,
            !s.auto_mint,
    {
        Session { started: false, auto_mint: false }
    }

    /// Mark the session started and report whether this call was the one
    /// that started it: the session begins at most once, and repeated
    /// starts are no-ops rather than errors.
    pub fn try_start(&mut self) -> (begin: bool)
        ensures
            final(self).started,
            final(self).auto_mint == old(self).auto_mint,
            begin == !old(self).started,
    {
        let begin = !self.started;
        self.started = true;
        begin
    }

    pub fn enable_auto_mint(&mut self)
        ensures
            final(self).auto_mint,
            final(self).started == old(self).started,
    {
        self.auto_mint = true;
    }

    pub fn disable_auto_mint(&mut self)
        ensures
            !final(self).auto_mint,
            final(self).started == old(self).started,
    {
        self.auto_mint = false;
    }
}

} // verus!
