//! Simple timer which fires once its timeout has elapsed, checked once per
//! runtime tick.  Repeating timers measure from their last fire time; the
//! callback that runs on a fire is addressed by the timer's id and decides,
//! by its return value, whether the timer keeps running.

use vstd::prelude::*;

verus! {

/// Time elapsed from a baseline instant to `now`, both in microseconds on
/// the same monotonic clock; a clock that stepped backwards reads as zero.
pub open spec fn elapsed_since(baseline_us: u64, now_us: u64) -> int {
    if now_us >= baseline_us {
        now_us - baseline_us
    } else {
        0
    }
}

/// A one-shot or repeating deadline.
#[derive(Clone, Copy, Debug)]
pub struct Timer {
    /// Whether the timer is discarded after its first fire.
    pub one_shot: bool,
    /// Whether the last fire's callback asked to keep the timer running;
    /// the runtime drops a timer whose callback said stop.
    pub continue_running: bool,
    /// The instant the elapsed time is measured from: the start instant, or
    /// the last fire for a repeating timer.
    pub baseline_us: u64,
    /// How long after the baseline the timer fires.
    pub timeout_us: u64,
    /// The handle callbacks are addressed by.
    pub id: u64,
}

impl Timer {
    /// Whether the timer's timeout has elapsed at `now`.
    pub open spec fn fired_spec(self, now_us: u64) -> bool {
        elapsed_since(self.baseline_us, now_us) >= self.timeout_us
    }

    /// Start a timer: it first fires on the first tick at least
    /// `timeout_us` after `now_us`.
    pub fn start(timeout_us: u64, one_shot: bool, id: u64, now_us: u64) -> (t: Timer)
        ensures
            t == (Timer {
                one_shot,
                continue_running: true,
                baseline_us: now_us,
                timeout_us,
                id,
            }),
    {
        Timer { one_shot, continue_running: true, baseline_us: now_us, timeout_us, id }
    }

    /// Whether given time has elapsed.
    pub fn is_finished(&self, now_us: u64) -> (r: bool)
        ensures
            r == self.fired_spec(now_us),
    {
        let elapsed = if now_us >= self.baseline_us {
            now_us - self.baseline_us
        } else {
            0
        };
        elapsed >= self.timeout_us
    }

    /// A timer is never missed: any tick that observes the timer at least
    /// its timeout past its baseline sees it as fired — so a repeating
    /// timer with timeout T fires at least once per T elapsed, as long as
    /// ticks keep coming.
    pub proof fn lemma_due_timer_fires(self, now_us: u64)
        requires
            elapsed_since(self.baseline_us, now_us) >= self.timeout_us,
        ensures
            self.fired_spec(now_us),
    {
    }

    /// Run a timeout: a repeating timer's baseline resets to the fire time
    /// (not the original schedule time), and the callback's answer, handed
    /// in as `keep_running`, is recorded.
    pub fn timeout(&mut self, now_us: u64, keep_running: bool)
        ensures
            *final(self) == (Timer {
                baseline_us: if old(self).one_shot {
                    old(self).baseline_us
                } else {
                    now_us
                },
                continue_running: keep_running,
                ..*old(self)
            }),
    {
        if !self.one_shot {
            self.baseline_us = now_us;
        }
        self.continue_running = keep_running;
    }
}

} // verus!
