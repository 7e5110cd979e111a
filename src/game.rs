//! The main loop's two states: running, and stopped for good.
use vstd::prelude::*;

verus! {

#[derive(Clone, Copy, Debug, PartialEq, Eq, Structural)]
pub enum LoopPhase {
    Running,
    Stopped,
}

/// The phase after a poll that did or did not bring a request to quit.
pub open spec fn next_phase(p: LoopPhase, quit_received: bool) -> LoopPhase {
    if quit_received {
        LoopPhase::Stopped
    } else {
        p
    }
}

/// Decides, tick by tick, whether the game keeps running.
pub struct GameLoop {
    pub phase: LoopPhase,
    pub ticks: u64,
}

impl GameLoop {
    pub fn new() -> (r: GameLoop)
        ensures
            r.phase == LoopPhase::Running,
            r.ticks == 0,
    {
        GameLoop { phase: LoopPhase::Running, ticks: 0 }
    }

    pub fn is_running(&self) -> (r: bool)
        ensures
            r == (self.phase == LoopPhase::Running),
    {
        match self.phase {
            LoopPhase::Running => true,
            LoopPhase::Stopped => false,
        }
    }

    /// Records a poll. Returns whether the rest of the tick (movement,
    /// drawing, pacing) should run; once stopped the loop never runs again.
    pub fn after_poll(&mut self, quit_received: bool) -> (run_tick: bool)
        ensures
            final(self).phase == next_phase(old(self).phase, quit_received),
            old(self).phase == LoopPhase::Stopped ==> final(self).phase == LoopPhase::Stopped,
            run_tick == (final(self).phase == LoopPhase::Running),
            final(self).ticks == if run_tick && old(self).ticks < u64::MAX {
                old(self).ticks + 1
            } else {
                old(self).ticks as int
            },
    {
        if quit_received {
            self.phase = LoopPhase::Stopped;
        }
        let run = self.is_running();
        if run && self.ticks < u64::MAX {
            self.ticks = self.ticks + 1;
        }
        run
    }
}

} // verus!
