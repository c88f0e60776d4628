//! A time-bounded value interpolation: start, end and duration, advanced by
//! each tick's elapsed time and clamped at the duration.  The update and
//! completion callbacks are addressed by the tweener's id; the update
//! callback decides, by its return value, whether the tweener keeps
//! running, and the runtime removes a tweener that reached its duration
//! whatever that answer was.
//!
//! Interpolation here is linear, so its value carries an exact contract.
//! An eased curve (quadratic, sine and the like, floating-point shapes the
//! verified core does not hold) is applied by the update callback to the
//! linear value it is handed: timing, clamping and removal stay verified
//! either way.

use vstd::prelude::*;

use crate::arith::{lemma_trunc_div_bound, trunc_div, trunc_div_i128};

verus! {

/// The largest magnitude a tweened value or a duration may have.
pub const TWEEN_LIMIT: i64 = 0x100_0000_0000;

/// A bounded-duration linear interpolation driver.
#[derive(Clone, Copy, Debug)]
pub struct Tweener {
    /// The value at no progress.
    pub start: i64,
    /// The value at full progress.
    pub end: i64,
    /// How long the interpolation runs, in microseconds; at least one.
    pub duration_us: u64,
    /// How much of the duration has elapsed; never beyond the duration.
    pub elapsed_us: u64,
    /// The handle callbacks are addressed by.
    pub id: u64,
}

impl Tweener {
    /// In-range values and duration, progress within the duration.
    pub open spec fn wf(self) -> bool {
        &&& 1 <= self.duration_us <= TWEEN_LIMIT
        &&& self.elapsed_us <= self.duration_us
        &&& -TWEEN_LIMIT <= self.start <= TWEEN_LIMIT
        &&& -TWEEN_LIMIT <= self.end <= TWEEN_LIMIT
    }

    /// The elapsed time after advancing by `delta_us`, clamped at the duration.
    pub open spec fn advanced_elapsed(self, delta_us: u64) -> u64 {
        if self.elapsed_us + delta_us >= self.duration_us {
            self.duration_us
        } else {
            (self.elapsed_us + delta_us) as u64
        }
    }

    /// The interpolated value at the given progress.
    pub open spec fn value_at(self, elapsed_us: u64) -> int {
        self.start + trunc_div((self.end - self.start) * elapsed_us, self.duration_us as int)
    }

    /// A tweener is finished once its whole duration has elapsed.
    pub open spec fn finished_spec(self) -> bool {
        self.elapsed_us >= self.duration_us
    }

    /// A fresh tweener at no progress.
    pub fn new(start: i64, end: i64, duration_us: u64, id: u64) -> (t: Tweener)
        requires
            1 <= duration_us <= TWEEN_LIMIT,
            -TWEEN_LIMIT <= start <= TWEEN_LIMIT,
            -TWEEN_LIMIT <= end <= TWEEN_LIMIT,
        ensures
            t == (Tweener { start, end, duration_us, elapsed_us: 0, id }),
            t.wf(),
            !t.finished_spec(),
    {
        Tweener { start, end, duration_us, elapsed_us: 0, id }
    }

    pub fn is_finished(&self) -> (r: bool)
        ensures
            r == self.finished_spec(),
    {
        self.elapsed_us >= self.duration_us
    }

    /// Advance by the tick's elapsed time, clamping at the configured
    /// duration, and return the value interpolated at the new progress.
    pub fn move_by(&mut self, delta_us: u64) -> (value: i64)
        requires
            old(self).wf(),
        ensures
            final(self).wf(),
            *final(self) == (Tweener {
                elapsed_us: old(self).advanced_elapsed(delta_us),
                ..*old(self)
            }),
            value == old(self).value_at(final(self).elapsed_us),
            old(self).start <= old(self).end ==> old(self).start <= value <= old(self).end,
            old(self).end <= old(self).start ==> old(self).end <= value <= old(self).start,
    {
        let remaining = self.duration_us - self.elapsed_us;
        if delta_us >= remaining {
            self.elapsed_us = self.duration_us;
        } else {
            self.elapsed_us = self.elapsed_us + delta_us;
        }
        proof {
            let d = self.duration_us as int;
            let e = self.elapsed_us as int;
            let df = self.end - self.start;
            let lim = TWEEN_LIMIT as int;
            assert(-(2 * lim * lim) <= df * e <= 2 * lim * lim) by (nonlinear_arith)
                requires
                    -2 * lim <= df <= 2 * lim,
                    0 <= e <= lim,
                    0 < lim,
            ;
            if df >= 0 {
                assert(0 <= df * e <= df * d) by (nonlinear_arith)
                    requires
                        0 <= e <= d,
                        0 <= df,
                ;
                lemma_trunc_div_bound(df * e, d, df);
            } else {
                assert(-((-df) * d) <= df * e <= (-df) * d) by (nonlinear_arith)
                    requires
                        0 <= e <= d,
                        df < 0,
                ;
                lemma_trunc_div_bound(df * e, d, -df);
                assert(df * e <= 0) by (nonlinear_arith)
                    requires
                        df < 0,
                        0 <= e,
                ;
                assert(trunc_div(df * e, d) <= 0) by {
                    if df * e < 0 {
                        vstd::arithmetic::div_mod::lemma_div_pos_is_pos(-(df * e), d);
                    } else {
                        vstd::arithmetic::div_mod::lemma_div_of0(d);
                    }
                }
            }
        }
        let diff: i128 = self.end as i128 - self.start as i128;
        let num: i128 = diff * self.elapsed_us as i128;
        let q: i128 = trunc_div_i128(num, self.duration_us as i128);
        self.start + q as i64
    }
}

} // verus!
