//! The runtime: Z-ordered effect layers folded into one render buffer per
//! tick, a cooperative timer/tween scheduler, and the per-tick ordering —
//! tweeners, then timers, then the process callback, then one consume of
//! every key's `just_pressed` edge.
//!
//! Scheduled items carry no closures: each timer and tweener holds an id,
//! and the `Process` trait receives the runtime, the id and (for tweeners)
//! the interpolated value at call time.  A driver loop outside supplies the
//! clock, runs `tick` until it returns false, and pushes each composited
//! frame to the hardware.

use vstd::prelude::*;

use vstd::std_specs::vec::vec_index_mut;

use crate::color::{blend, blend_spec, quantize_channel, quantize_spec, Color, ColorBlendTypes};
use crate::keyboard::key_delta::DeltaWatcher;
use crate::keyboard::matrix::{get_matrix, KeyboardMatrix, MATRIX_CELLS};
use crate::timer::{elapsed_since, Timer};
use crate::tween::Tweener;

verus! {

/// Whether some layer is keyed by this Z-index.
pub open spec fn has_z(s: Seq<(i32, KeyboardMatrix)>, z: i32) -> bool {
    exists|j: int| 0 <= j < s.len() && (#[trigger] s[j]).0 == z
}

/// The layer keyed by this Z-index (well-defined when the keys are unique).
pub open spec fn layer_at(s: Seq<(i32, KeyboardMatrix)>, z: i32) -> KeyboardMatrix {
    let j = choose|j: int| 0 <= j < s.len() && (#[trigger] s[j]).0 == z;
    s[j].1
}

/// Strictly ascending Z-indices: the compositing order, and uniqueness.
pub open spec fn sorted_by_z(s: Seq<(i32, KeyboardMatrix)>) -> bool {
    forall|i: int, j: int| 0 <= i < j < s.len() ==> (#[trigger] s[i]).0 < (#[trigger] s[j]).0
}

/// In a sorted layer list any index holding `z` is the one `layer_at` reads.
proof fn lemma_layer_at_agrees(s: Seq<(i32, KeyboardMatrix)>, z: i32, j: int)
    requires
        sorted_by_z(s),
        0 <= j < s.len(),
        s[j].0 == z,
    ensures
        layer_at(s, z) == s[j].1,
{
    let w = choose|w: int| 0 <= w < s.len() && (#[trigger] s[w]).0 == z;
    if w < j {
        assert(s[w].0 < s[j].0);
    } else if j < w {
        assert(s[j].0 < s[w].0);
    }
}

/// The grids of the layer list, in stored (ascending Z) order.
pub open spec fn layer_mats(s: Seq<(i32, KeyboardMatrix)>) -> Seq<KeyboardMatrix> {
    s.map_values(|p: (i32, KeyboardMatrix)| p.1)
}

/// One cell's composited color: the base color with each layer's key folded
/// in, in ascending Z order, under that key's own blend mode.  No cell reads
/// any other cell.
pub open spec fn composite_cell(base: Color, mats: Seq<KeyboardMatrix>, idx: int) -> Color
    decreases mats.len(),
{
    if mats.len() == 0 {
        base
    } else {
        let m = mats.last();
        blend_spec(
            m.keys@[idx].color_blend_type,
            composite_cell(base, mats.drop_last(), idx),
            m.keys@[idx].color,
        )
    }
}

/// A color quantized to 8-bit channels for hardware transfer.
pub open spec fn quantized(c: Color) -> (u8, u8, u8) {
    (
        quantize_spec(c.red as int) as u8,
        quantize_spec(c.green as int) as u8,
        quantize_spec(c.blue as int) as u8,
    )
}

/// One timer's state after a tick at `now_us`, given its callback's answer
/// (the answer matters only when the timer fired).
pub open spec fn timer_after_tick(t: Timer, now_us: u64, keep: bool) -> Timer {
    if t.fired_spec(now_us) {
        Timer {
            baseline_us: if t.one_shot {
                t.baseline_us
            } else {
                now_us
            },
            continue_running: keep,
            ..t
        }
    } else {
        t
    }
}

/// A timer stays unless it fired as a one-shot, or its callback said stop.
pub open spec fn timer_retained(t: Timer, now_us: u64, keep: bool) -> bool {
    if t.fired_spec(now_us) {
        !t.one_shot && keep
    } else {
        true
    }
}

/// The timer list after one tick at `now_us`, given the callbacks' answers.
pub open spec fn timers_step(s: Seq<Timer>, now_us: u64, keeps: Seq<bool>) -> Seq<Timer>
    decreases s.len(),
{
    if s.len() == 0 {
        Seq::<Timer>::empty()
    } else {
        let rest = timers_step(s.drop_last(), now_us, keeps.drop_last());
        if timer_retained(s.last(), now_us, keeps.last()) {
            rest.push(timer_after_tick(s.last(), now_us, keeps.last()))
        } else {
            rest
        }
    }
}

/// One tweener's state after advancing by the tick's delta.
pub open spec fn tween_after_tick(t: Tweener, delta_us: u64) -> Tweener {
    Tweener { elapsed_us: t.advanced_elapsed(delta_us), ..t }
}

/// A tweener stays only if it has not reached its duration AND its update
/// callback answered true — either alone removes it.
pub open spec fn tween_retained(t: Tweener, delta_us: u64, keep: bool) -> bool {
    !tween_after_tick(t, delta_us).finished_spec() && keep
}

/// The tweener list after one tick, given the update callbacks' answers.
pub open spec fn tweens_step(s: Seq<Tweener>, delta_us: u64, keeps: Seq<bool>) -> Seq<Tweener>
    decreases s.len(),
{
    if s.len() == 0 {
        Seq::<Tweener>::empty()
    } else {
        let rest = tweens_step(s.drop_last(), delta_us, keeps.drop_last());
        if tween_retained(s.last(), delta_us, keeps.last()) {
            rest.push(tween_after_tick(s.last(), delta_us))
        } else {
            rest
        }
    }
}

/// A tweener that reaches its configured duration is removed on that very
/// tick, whatever its update callback answered; since the completion
/// callback runs exactly when the duration is reached, it runs exactly
/// once.  Every tweener that survives a tick is strictly unfinished.
pub proof fn lemma_finished_tween_removed(s: Seq<Tweener>, delta_us: u64, keeps: Seq<bool>)
    ensures
        forall|i: int|
            0 <= i < tweens_step(s, delta_us, keeps).len() ==> !(#[trigger] tweens_step(
                s,
                delta_us,
                keeps,
            )[i]).finished_spec(),
    decreases s.len(),
{
    if s.len() > 0 {
        lemma_finished_tween_removed(s.drop_last(), delta_us, keeps.drop_last());
        let rest = tweens_step(s.drop_last(), delta_us, keeps.drop_last());
        let out = tweens_step(s, delta_us, keeps);
        if tween_retained(s.last(), delta_us, keeps.last()) {
            assert forall|i: int| 0 <= i < out.len() implies !(#[trigger] out[i]).finished_spec()
            by {
                if i < rest.len() {
                    assert(out[i] == rest[i]);
                } else {
                    assert(out[i] == tween_after_tick(s.last(), delta_us));
                }
            }
        }
    }
}

/// A repeating timer whose timeout has elapsed at the tick fires on that
/// tick, and when its callback keeps it alive it stays with its baseline
/// reset to the fire time — not to the original schedule time.
pub proof fn lemma_fired_timer_baseline(s: Seq<Timer>, now_us: u64, keeps: Seq<bool>, j: int)
    requires
        keeps.len() == s.len(),
        0 <= j < s.len(),
        s[j].fired_spec(now_us),
        !s[j].one_shot,
        keeps[j],
    ensures
        timers_step(s, now_us, keeps).contains(
            Timer { baseline_us: now_us, continue_running: true, ..s[j] },
        ),
    decreases s.len(),
{
    let out = timers_step(s, now_us, keeps);
    if j == s.len() - 1 {
        assert(out.last() == timer_after_tick(s[j], now_us, keeps[j]));
        assert(out[out.len() - 1] == (Timer { baseline_us: now_us, continue_running: true, ..s[j] }));
    } else {
        lemma_fired_timer_baseline(s.drop_last(), now_us, keeps.drop_last(), j);
        let rest = timers_step(s.drop_last(), now_us, keeps.drop_last());
        let t = Timer { baseline_us: now_us, continue_running: true, ..s[j] };
        let w = choose|w: int| 0 <= w < rest.len() && rest[w] == t;
        // Whether the last timer is retained or not, the survivors of the
        // shorter list keep their positions at the front of the result.
        assert(out[w] == t);
    }
}

/// A one-shot timer that fired never survives the tick.
pub proof fn lemma_one_shot_removed(s: Seq<Timer>, now_us: u64, keeps: Seq<bool>)
    ensures
        forall|i: int|
            0 <= i < timers_step(s, now_us, keeps).len() ==> !((#[trigger] timers_step(
                s,
                now_us,
                keeps,
            )[i]).one_shot && timers_step(s, now_us, keeps)[i].fired_spec(now_us)
                && timers_step(s, now_us, keeps)[i].baseline_us != now_us),
    decreases s.len(),
{
    if s.len() > 0 {
        lemma_one_shot_removed(s.drop_last(), now_us, keeps.drop_last());
        let rest = timers_step(s.drop_last(), now_us, keeps.drop_last());
        let out = timers_step(s, now_us, keeps);
        if timer_retained(s.last(), now_us, keeps.last()) {
            assert forall|i: int|
                0 <= i < out.len() implies !((#[trigger] out[i]).one_shot && out[i].fired_spec(
                now_us,
            ) && out[i].baseline_us != now_us) by {
                if i < rest.len() {
                    assert(out[i] == rest[i]);
                } else {
                    assert(out[i] == timer_after_tick(s.last(), now_us, keeps.last()));
                }
            }
        }
    }
}

/// The runtime: the layer stack, the scheduler state, and the optional
/// analog watcher, advanced cooperatively one tick at a time.
pub struct Runtime {
    /// The instant (microseconds) the current run started.
    pub start_us: u64,
    /// Delta watcher state you can read for analog-driven effects.
    pub delta_watcher: Option<DeltaWatcher>,
    /// Delta since last frame.
    /// This is for when you cannot access it from process, like in a timer
    /// or tweener callback.
    pub delta_us: u64,
    /// The previous tick's instant: the baseline of the next tick's delta.
    pub last_us: u64,
    /// Exit was requested; the driver observes it at the end of the tick.
    pub exit: bool,
    /// Live tweeners, each addressed by its id.
    pub tweeners: Vec<Tweener>,
    /// Live timers, each addressed by its id.
    pub timers: Vec<Timer>,
    /// The effect layers, keyed by Z-index, kept sorted ascending.
    pub effect_layers: Vec<(i32, KeyboardMatrix)>,
    /// The base grid compositing starts from each tick.
    pub render_layer: KeyboardMatrix,
    /// The next scheduling id to hand out.
    pub next_id: u64,
}

/// The two-method contract a process implements, plus the scheduled-item
/// callbacks, which are addressed by id: the runtime and the process are
/// passed explicitly at call time, so no scheduled item captures state.
pub trait Process: Sized {
    /// Called once before the loop starts.
    fn init(&mut self, runtime: &mut Runtime)
        requires
            old(runtime).wf(),
        ensures
            final(runtime).wf(),
    ;

    /// Called every step of the loop with the tick's elapsed time.
    fn process(&mut self, runtime: &mut Runtime, delta_us: u64)
        requires
            old(runtime).wf(),
        ensures
            final(runtime).wf(),
    ;

    /// Called when the timer with this id fires; answering false stops it.
    fn on_timer(&mut self, runtime: &mut Runtime, id: u64) -> (keep: bool)
        requires
            old(runtime).wf(),
        ensures
            final(runtime).wf(),
    ;

    /// Called every tick for each live tweener with its interpolated value;
    /// answering false removes it.
    fn on_tween(&mut self, runtime: &mut Runtime, id: u64, value: i64) -> (keep: bool)
        requires
            old(runtime).wf(),
        ensures
            final(runtime).wf(),
    ;

    /// Called once, right after the update callback, on the tick a tweener
    /// reaches its configured duration.
    fn on_tween_finished(&mut self, runtime: &mut Runtime, id: u64, value: i64)
        requires
            old(runtime).wf(),
        ensures
            final(runtime).wf(),
    ;
}

impl Runtime {
    /// Well-formed: layers sorted by Z with full grids, a full base grid,
    /// in-range tweeners, and a well-formed watcher when one is attached.
    pub open spec fn wf(self) -> bool {
        &&& sorted_by_z(self.effect_layers@)
        &&& forall|i: int|
            0 <= i < self.effect_layers@.len() ==> (#[trigger] self.effect_layers@[i]).1.wf()
        &&& self.render_layer.wf()
        &&& forall|i: int| 0 <= i < self.tweeners@.len() ==> (#[trigger] self.tweeners@[i]).wf()
        &&& match self.delta_watcher {
            Some(w) => w.wf(),
            None => true,
        }
    }

    /// The frame one compositing pass produces: for every cell, its key
    /// identity and the quantized composite of the layer stack over the
    /// base color.
    pub open spec fn frame_spec(self) -> Seq<((u8, u8), (u8, u8, u8))> {
        Seq::new(
            self.render_layer.keys@.len(),
            |idx: int|
                (
                    self.render_layer.keys@[idx].key,
                    quantized(
                        composite_cell(
                            self.render_layer.keys@[idx].color,
                            layer_mats(self.effect_layers@),
                            idx,
                        ),
                    ),
                ),
        )
    }

    /// Create a new runtime.  With `analog` true it carries a watcher over
    /// the default scan table (scan code = cell index); a driver reading a
    /// real device builds its watcher from the device's own table instead.
    pub fn new(analog: bool) -> (rt: Runtime)
        ensures
            rt.wf(),
            rt.effect_layers@.len() == 0,
            rt.timers@.len() == 0,
            rt.tweeners@.len() == 0,
            !rt.exit,
            rt.delta_us == 0,
            rt.start_us == 0,
            rt.last_us == 0,
            rt.next_id == 0,
            forall|i: int|
                0 <= i < MATRIX_CELLS ==> #[trigger] rt.render_layer.keys@[i]
                    == crate::keyboard::matrix::layout_key(i / 21, i % 21),
            analog == (rt.delta_watcher matches Some(_)),
            rt.delta_watcher matches Some(w) ==> w.keys@.len() == MATRIX_CELLS
                && w.deltas_in_average == 10 && w.scan_delay_ns == 1_000_000 && !w.exit && !w.idle
                && forall|i: int|
                0 <= i < MATRIX_CELLS ==> #[trigger] w.keys@[i]
                    == crate::keyboard::key_delta::fresh_key_delta(
                    (i as u16, ((i / 21) as u8, (i % 21) as u8)),
                    127,
                ),
    {
        let delta_watcher = if analog {
            let table = default_scan_table();
            Some(DeltaWatcher::new(1_000_000, 10, 255 / 2, &table))
        } else {
            None
        };
        Runtime {
            start_us: 0,
            delta_watcher,
            delta_us: 0,
            last_us: 0,
            exit: false,
            tweeners: Vec::new(),
            timers: Vec::new(),
            effect_layers: Vec::new(),
            render_layer: get_matrix(),
            next_id: 0,
        }
    }

    /// Create a layer you can use for effects.  A layer already keyed by
    /// this Z-index is replaced; otherwise the new layer takes its place in
    /// ascending Z order.
    pub fn create_layer(&mut self, z_index: i32, layer: KeyboardMatrix)
        requires
            old(self).wf(),
            layer.wf(),
        ensures
            final(self).wf(),
            has_z(final(self).effect_layers@, z_index),
            layer_at(final(self).effect_layers@, z_index) == layer,
            forall|w: i32|
                w != z_index ==> #[trigger] has_z(final(self).effect_layers@, w) == has_z(
                    old(self).effect_layers@,
                    w,
                ),
            forall|w: i32|
                w != z_index && has_z(old(self).effect_layers@, w) ==> #[trigger] layer_at(
                    final(self).effect_layers@,
                    w,
                ) == layer_at(old(self).effect_layers@, w),
            final(self).timers == old(self).timers,
            final(self).tweeners == old(self).tweeners,
            final(self).render_layer == old(self).render_layer,
            final(self).delta_watcher == old(self).delta_watcher,
            final(self).exit == old(self).exit,
            final(self).next_id == old(self).next_id,
            final(self).last_us == old(self).last_us,
            final(self).start_us == old(self).start_us,
            final(self).delta_us == old(self).delta_us,
    {
        let ghost s0 = self.effect_layers@;
        let n = self.effect_layers.len();
        let mut pos: usize = 0;
        while pos < n && z_gt(&self.effect_layers, pos, z_index)
            invariant
                pos <= n,
                n == self.effect_layers@.len(),
                self.effect_layers@ == s0,
                forall|t: int| 0 <= t < pos ==> (#[trigger] s0[t]).0 < z_index,
            decreases n - pos,
        {
            pos = pos + 1;
        }
        if pos < n && self.effect_layers[pos].0 == z_index {
            self.effect_layers[pos] = (z_index, layer);
            proof {
                let s1 = self.effect_layers@;
                assert(s1 =~= s0.update(pos as int, (z_index, layer)));
                assert(sorted_by_z(s1));
                lemma_layer_at_agrees(s1, z_index, pos as int);
                lemma_layer_swap_others(s0, s1, z_index, pos as int);
            }
        } else {
            proof {
                if pos < n {
                    assert(s0[pos as int].0 > z_index);
                }
            }
            self.effect_layers.insert(pos, (z_index, layer));
            proof {
                let s1 = self.effect_layers@;
                assert(s1 == s0.insert(pos as int, (z_index, layer)));
                assert forall|i: int, j: int| 0 <= i < j < s1.len() implies (#[trigger] s1[i]).0
                    < (#[trigger] s1[j]).0 by {
                    if i < pos && j == pos {
                        assert(s1[i] == s0[i]);
                    } else if i == pos && j > pos {
                        assert(s1[j] == s0[j - 1]);
                        assert(s0[j - 1].0 >= s0[pos as int].0 || j - 1 == pos);
                    } else if j < pos {
                        assert(s1[i] == s0[i] && s1[j] == s0[j]);
                    } else if i > pos {
                        assert(s1[i] == s0[i - 1] && s1[j] == s0[j - 1]);
                    } else if i < pos && j > pos {
                        assert(s1[i] == s0[i] && s1[j] == s0[j - 1]);
                        assert(s0[i].0 < z_index);
                        assert(if j - 1 == pos {
                            true
                        } else {
                            s0[j - 1].0 > z_index
                        });
                    }
                }
                lemma_layer_at_agrees(s1, z_index, pos as int);
                lemma_layer_insert_others(s0, s1, z_index, pos as int);
            }
        }
    }

    /// Get the layer keyed by this Z-index, for mutation in place.
    /// Requesting a Z-index with no registered layer is a programming error
    /// and is excluded here; it never silently creates one.
    pub fn get_layer(&mut self, z_index: i32) -> (layer: &mut KeyboardMatrix)
        requires
            old(self).wf(),
            has_z(old(self).effect_layers@, z_index),
        ensures
            *layer == layer_at(old(self).effect_layers@, z_index),
            final(self).effect_layers@.len() == old(self).effect_layers@.len(),
            exists|j: int|
                {
                    &&& 0 <= j < old(self).effect_layers@.len()
                    &&& old(self).effect_layers@[j].0 == z_index
                    &&& final(self).effect_layers@ == old(self).effect_layers@.update(
                        j,
                        (z_index, *final(layer)),
                    )
                },
            final(self).timers == old(self).timers,
            final(self).tweeners == old(self).tweeners,
            final(self).render_layer == old(self).render_layer,
            final(self).delta_watcher == old(self).delta_watcher,
            final(self).exit == old(self).exit,
            final(self).next_id == old(self).next_id,
            final(self).last_us == old(self).last_us,
            final(self).start_us == old(self).start_us,
            final(self).delta_us == old(self).delta_us,
            (*final(layer)).wf() ==> final(self).wf(),
    {
        let n = self.effect_layers.len();
        let mut idx: usize = 0;
        while idx < n && !z_eq(&self.effect_layers, idx, z_index)
            invariant
                idx <= n,
                n == self.effect_layers@.len(),
                has_z(self.effect_layers@, z_index),
                sorted_by_z(self.effect_layers@),
                self.effect_layers@ == old(self).effect_layers@,
                forall|t: int| 0 <= t < idx ==> (#[trigger] self.effect_layers@[t]).0 != z_index,
            decreases n - idx,
        {
            idx = idx + 1;
        }
        proof {
            if idx == n {
                let w = choose|w: int|
                    0 <= w < self.effect_layers@.len() && (#[trigger] self.effect_layers@[w]).0
                        == z_index;
                assert(false);
            }
            lemma_layer_at_agrees(self.effect_layers@, z_index, idx as int);
        }
        let pair = vec_index_mut(&mut self.effect_layers, idx);
        &mut pair.1
    }

    /// Exit the process loop after this iteration; an attached watcher's
    /// exit flag is raised too, so its scanning thread winds down.
    pub fn exit(&mut self)
        requires
            old(self).wf(),
        ensures
            final(self).wf(),
            final(self).exit,
            old(self).delta_watcher matches Some(w) ==> final(self).delta_watcher == Some(
                DeltaWatcher { exit: true, ..w },
            ),
            old(self).delta_watcher matches None ==> final(self).delta_watcher == (None::<
                DeltaWatcher,
            >),
            final(self).timers == old(self).timers,
            final(self).tweeners == old(self).tweeners,
            final(self).effect_layers == old(self).effect_layers,
            final(self).render_layer == old(self).render_layer,
    {
        let ghost w0 = old(self).delta_watcher;
        match &mut self.delta_watcher {
            Some(w) => {
                w.exit = true;
            },
            None => {},
        }
        self.exit = true;
        proof {
            match w0 {
                Some(wg) => {
                    let wn = self.delta_watcher.unwrap();
                    assert(wn == (DeltaWatcher { exit: true, ..wg }));
                    wg.lemma_wf_same_core(wn);
                },
                None => {},
            }
        }
    }

    /// Creates a tweener running from `start` to `end` over `duration_us`,
    /// and returns the id its callbacks will be addressed by.
    pub fn create_tween(&mut self, start: i64, end: i64, duration_us: u64) -> (id: u64)
        requires
            old(self).wf(),
            old(self).next_id < u64::MAX,
            1 <= duration_us <= crate::tween::TWEEN_LIMIT,
            -crate::tween::TWEEN_LIMIT <= start <= crate::tween::TWEEN_LIMIT,
            -crate::tween::TWEEN_LIMIT <= end <= crate::tween::TWEEN_LIMIT,
        ensures
            final(self).wf(),
            id == old(self).next_id,
            final(self).next_id == old(self).next_id + 1,
            final(self).tweeners@ == old(self).tweeners@.push(
                Tweener { start, end, duration_us, elapsed_us: 0, id },
            ),
            final(self).timers == old(self).timers,
            final(self).effect_layers == old(self).effect_layers,
            final(self).delta_watcher == old(self).delta_watcher,
    {
        let id = self.next_id;
        self.next_id = self.next_id + 1;
        self.tweeners.push(Tweener::new(start, end, duration_us, id));
        id
    }

    /// Creates a timer and starts it from the current tick's instant; it
    /// fires on the first tick at least `timeout_us` later.  Returns the id
    /// its callback will be addressed by.
    pub fn create_timer(&mut self, timeout_us: u64, one_shot: bool) -> (id: u64)
        requires
            old(self).wf(),
            old(self).next_id < u64::MAX,
        ensures
            final(self).wf(),
            id == old(self).next_id,
            final(self).next_id == old(self).next_id + 1,
            final(self).timers@ == old(self).timers@.push(
                Timer {
                    one_shot,
                    continue_running: true,
                    baseline_us: old(self).last_us,
                    timeout_us,
                    id,
                },
            ),
            final(self).tweeners == old(self).tweeners,
            final(self).effect_layers == old(self).effect_layers,
            final(self).delta_watcher == old(self).delta_watcher,
    {
        let id = self.next_id;
        self.next_id = self.next_id + 1;
        let t = Timer::start(timeout_us, one_shot, id, self.last_us);
        self.timers.push(t);
        id
    }
}

impl Runtime {
    /// Updates the keyboard rgb array: fold every layer's keys into a copy
    /// of the base grid in ascending Z order, each cell independently under
    /// its own key's blend mode, then clamp and round each channel to 8
    /// bits.  The driver pushes the returned frame to the hardware.
    pub fn update_keyboard(&self) -> (frame: Vec<((u8, u8), (u8, u8, u8))>)
        requires
            self.wf(),
        ensures
            frame@ == self.frame_spec(),
    {
        let ghost mats = layer_mats(self.effect_layers@);
        let mut colors: Vec<Color> = Vec::new();
        let mut idx: usize = 0;
        while idx < MATRIX_CELLS
            invariant
                idx <= MATRIX_CELLS,
                self.wf(),
                colors@.len() == idx,
                forall|t: int|
                    0 <= t < idx ==> #[trigger] colors@[t] == self.render_layer.keys@[t].color,
            decreases MATRIX_CELLS - idx,
        {
            colors.push(self.render_layer.key_at(idx).color);
            idx = idx + 1;
        }
        let nl = self.effect_layers.len();
        proof {
            assert(mats.take(0) =~= Seq::<KeyboardMatrix>::empty());
        }
        let mut li: usize = 0;
        while li < nl
            invariant
                li <= nl,
                nl == self.effect_layers@.len(),
                self.wf(),
                mats == layer_mats(self.effect_layers@),
                colors@.len() == MATRIX_CELLS,
                forall|t: int|
                    0 <= t < MATRIX_CELLS ==> #[trigger] colors@[t] == composite_cell(
                        self.render_layer.keys@[t].color,
                        mats.take(li as int),
                        t,
                    ),
            decreases nl - li,
        {
            let layer: &KeyboardMatrix = &self.effect_layers[li].1;
            let ghost lm = self.effect_layers@[li as int].1;
            proof {
                assert(mats[li as int] == lm);
            }
            let mut cell: usize = 0;
            while cell < MATRIX_CELLS
                invariant
                    cell <= MATRIX_CELLS,
                    li < nl,
                    nl == self.effect_layers@.len(),
                    self.wf(),
                    mats == layer_mats(self.effect_layers@),
                    mats[li as int] == lm,
                    *layer == lm,
                    lm.wf(),
                    colors@.len() == MATRIX_CELLS,
                    forall|t: int|
                        cell <= t < MATRIX_CELLS ==> #[trigger] colors@[t] == composite_cell(
                            self.render_layer.keys@[t].color,
                            mats.take(li as int),
                            t,
                        ),
                    forall|t: int|
                        0 <= t < cell ==> #[trigger] colors@[t] == composite_cell(
                            self.render_layer.keys@[t].color,
                            mats.take(li as int + 1),
                            t,
                        ),
                decreases MATRIX_CELLS - cell,
            {
                let k = layer.key_at(cell);
                let folded = blend(k.color_blend_type, colors[cell], k.color);
                proof {
                    assert(mats.take(li as int + 1).drop_last() =~= mats.take(li as int));
                    assert(mats.take(li as int + 1).last() == lm);
                }
                colors[cell] = folded;
                cell = cell + 1;
            }
            li = li + 1;
        }
        proof {
            assert(mats.take(nl as int) =~= mats);
        }
        let mut frame: Vec<((u8, u8), (u8, u8, u8))> = Vec::new();
        let mut out: usize = 0;
        while out < MATRIX_CELLS
            invariant
                out <= MATRIX_CELLS,
                self.wf(),
                colors@.len() == MATRIX_CELLS,
                forall|t: int|
                    0 <= t < MATRIX_CELLS ==> #[trigger] colors@[t] == composite_cell(
                        self.render_layer.keys@[t].color,
                        layer_mats(self.effect_layers@),
                        t,
                    ),
                frame@.len() == out,
                forall|t: int| 0 <= t < out ==> #[trigger] frame@[t] == self.frame_spec()[t],
            decreases MATRIX_CELLS - out,
        {
            let k = self.render_layer.key_at(out);
            let c = colors[out];
            frame.push(
                (
                    k.key,
                    (
                        quantize_channel(c.red),
                        quantize_channel(c.green),
                        quantize_channel(c.blue),
                    ),
                ),
            );
            out = out + 1;
        }
        proof {
            assert(frame@ =~= self.frame_spec());
        }
        frame
    }

    /// Reset the runtime for a fresh run: the exit flag cleared, layers,
    /// timers and tweeners all emptied, and the clock rebased to `now_us`.
    /// The base grid, the watcher and the id counter ride through.
    pub fn reset(&mut self, now_us: u64)
        requires
            old(self).wf(),
        ensures
            final(self).wf(),
            final(self).effect_layers@ == Seq::<(i32, KeyboardMatrix)>::empty(),
            final(self).timers@ == Seq::<Timer>::empty(),
            final(self).tweeners@ == Seq::<Tweener>::empty(),
            !final(self).exit,
            final(self).start_us == now_us,
            final(self).last_us == now_us,
            final(self).delta_us == 0,
            final(self).render_layer == old(self).render_layer,
            final(self).delta_watcher == old(self).delta_watcher,
            final(self).next_id == old(self).next_id,
    {
        self.exit = false;
        self.effect_layers.clear();
        self.timers.clear();
        self.tweeners.clear();
        self.start_us = now_us;
        self.last_us = now_us;
        self.delta_us = 0;
    }

    /// Begin a fresh run: `reset` to the empty state at `now_us` (its
    /// contract pins exactly what the process is handed), then run the
    /// process's one-time `init`, where layers and timers are typically
    /// created.  What `init` leaves behind is the process's own; only
    /// well-formedness survives it.
    pub fn start<T: Process>(&mut self, process: &mut T, now_us: u64)
        requires
            old(self).wf(),
        ensures
            final(self).wf(),
    {
        self.reset(now_us);
        process.init(self);
    }

    /// Advance every live tweener by the tick's delta: each gets its update
    /// callback with the interpolated value, then — on the tick it reaches
    /// its duration — its completion callback, once.  The list written back
    /// holds exactly this phase's survivors, as `tweens_step` describes for
    /// the answers the update callbacks gave; a tweener the callbacks
    /// created mid-phase is not carried over.
    pub fn advance_tweeners<T: Process>(&mut self, process: &mut T, delta: u64)
        requires
            old(self).wf(),
        ensures
            final(self).wf(),
            exists|keeps: Seq<bool>|
                keeps.len() == old(self).tweeners@.len() && final(self).tweeners@
                    == #[trigger] tweens_step(old(self).tweeners@, delta, keeps),
    {
        let mut tws: Vec<Tweener> = Vec::new();
        core::mem::swap(&mut tws, &mut self.tweeners);
        let ghost tws0 = tws@;
        let mut kept_tws: Vec<Tweener> = Vec::new();
        let ghost mut tkeeps: Seq<bool> = Seq::<bool>::empty();
        let ntw = tws.len();
        proof {
            assert(tws0.take(0) =~= Seq::<Tweener>::empty());
        }
        let mut i: usize = 0;
        while i < ntw
            invariant
                i <= ntw,
                ntw == tws0.len(),
                tws@ == tws0,
                self.wf(),
                forall|t: int| 0 <= t < ntw ==> (#[trigger] tws0[t]).wf(),
                tkeeps.len() == i,
                kept_tws@ == tweens_step(tws0.take(i as int), delta, tkeeps),
                forall|t: int| 0 <= t < kept_tws@.len() ==> (#[trigger] kept_tws@[t]).wf(),
            decreases ntw - i,
        {
            let ghost tk0 = tkeeps;
            let mut t = tws[i];
            let value = t.move_by(delta);
            let finished = t.is_finished();
            let keep = process.on_tween(self, t.id, value);
            if finished {
                process.on_tween_finished(self, t.id, value);
            }
            if !finished && keep {
                kept_tws.push(t);
            }
            proof {
                tkeeps = tkeeps.push(keep);
                assert(tkeeps.drop_last() =~= tk0);
                assert(tkeeps.last() == keep);
                assert(tws0.take(i as int + 1).drop_last() =~= tws0.take(i as int));
                assert(tws0.take(i as int + 1).last() == tws0[i as int]);
                assert(t == tween_after_tick(tws0[i as int], delta));
            }
            i = i + 1;
        }
        proof {
            assert(tws0.take(ntw as int) =~= tws0);
        }
        self.tweeners = kept_tws;
    }

    /// Fire every timer whose timeout has elapsed at `now_us`: its callback
    /// runs, a repeating timer's baseline resets to the fire time, and the
    /// list written back holds exactly this phase's survivors, as
    /// `timers_step` describes for the answers the callbacks gave — a
    /// one-shot that fired, or any timer whose callback said stop, is gone.
    pub fn advance_timers<T: Process>(&mut self, process: &mut T, now_us: u64)
        requires
            old(self).wf(),
        ensures
            final(self).wf(),
            exists|keeps: Seq<bool>|
                keeps.len() == old(self).timers@.len() && final(self).timers@
                    == #[trigger] timers_step(old(self).timers@, now_us, keeps),
    {
        let mut tms: Vec<Timer> = Vec::new();
        core::mem::swap(&mut tms, &mut self.timers);
        let ghost tms0 = tms@;
        let mut kept_tms: Vec<Timer> = Vec::new();
        let ghost mut mkeeps: Seq<bool> = Seq::<bool>::empty();
        let ntm = tms.len();
        proof {
            assert(tms0.take(0) =~= Seq::<Timer>::empty());
        }
        let mut j: usize = 0;
        while j < ntm
            invariant
                j <= ntm,
                ntm == tms0.len(),
                tms@ == tms0,
                self.wf(),
                mkeeps.len() == j,
                kept_tms@ == timers_step(tms0.take(j as int), now_us, mkeeps),
            decreases ntm - j,
        {
            let ghost mk0 = mkeeps;
            let mut t = tms[j];
            let fired = t.is_finished(now_us);
            if fired {
                let keep = process.on_timer(self, t.id);
                t.timeout(now_us, keep);
                if !t.one_shot && keep {
                    kept_tms.push(t);
                }
                proof {
                    mkeeps = mkeeps.push(keep);
                    assert(t == timer_after_tick(tms0[j as int], now_us, keep));
                }
            } else {
                kept_tms.push(t);
                proof {
                    mkeeps = mkeeps.push(true);
                    assert(t == timer_after_tick(tms0[j as int], now_us, true));
                }
            }
            proof {
                assert(mkeeps.drop_last() =~= mk0);
                assert(tms0.take(j as int + 1).drop_last() =~= tms0.take(j as int));
                assert(tms0.take(j as int + 1).last() == tms0[j as int]);
            }
            j = j + 1;
        }
        proof {
            assert(tms0.take(ntm as int) =~= tms0);
        }
        self.timers = kept_tms;
    }

    /// One cooperative tick at `now_us`, in the fixed order: tweeners
    /// advance, due timers fire, the process's per-tick callback runs, and
    /// every key's just-pressed edge is consumed exactly once.  Returns
    /// whether the loop continues — false exactly when exit stands
    /// requested at the end of the tick, never mid-tick.
    pub fn tick<T: Process>(&mut self, process: &mut T, now_us: u64) -> (cont: bool)
        requires
            old(self).wf(),
        ensures
            final(self).wf(),
            final(self).last_us == now_us,
            final(self).delta_us == elapsed_since(old(self).last_us, now_us) as u64,
            final(self).delta_watcher matches Some(w) ==> forall|i: int|
                0 <= i < w.keys@.len() ==> !(#[trigger] w.keys@[i]).just_pressed,
            cont == !final(self).exit,
    {
        let delta = if now_us >= self.last_us {
            now_us - self.last_us
        } else {
            0
        };
        self.delta_us = delta;
        self.advance_tweeners(process, delta);
        self.advance_timers(process, now_us);
        process.process(self, delta);
        match &mut self.delta_watcher {
            Some(w) => {
                w.just_pressed_consume();
            },
            None => {},
        }
        // Restate the tick's delta and instant: they stand for this tick
        // even if a callback touched the fields meanwhile.
        self.delta_us = delta;
        self.last_us = now_us;
        !self.exit
    }
}

/// A cell's composite reads the layer grids only through their key
/// sequences: stacks whose grids agree key for key composite alike.
proof fn lemma_composite_cell_congruence(
    base: Color,
    m1: Seq<KeyboardMatrix>,
    m2: Seq<KeyboardMatrix>,
    idx: int,
)
    requires
        m1.len() == m2.len(),
        forall|i: int| 0 <= i < m1.len() ==> (#[trigger] m1[i]).keys@ == m2[i].keys@,
    ensures
        composite_cell(base, m1, idx) == composite_cell(base, m2, idx),
    decreases m1.len(),
{
    if m1.len() > 0 {
        lemma_composite_cell_congruence(base, m1.drop_last(), m2.drop_last(), idx);
        assert(m1.last().keys@ == m2.last().keys@);
    }
}

/// Compositing is deterministic and independent of time: two runtimes
/// whose base grids and ordered layer grids hold the same keys produce the
/// same frame, byte for byte, whatever tick deltas led to either state.
pub proof fn lemma_compositing_deterministic(a: Runtime, b: Runtime)
    requires
        a.render_layer.keys@ == b.render_layer.keys@,
        a.effect_layers@.len() == b.effect_layers@.len(),
        forall|i: int|
            0 <= i < a.effect_layers@.len() ==> (#[trigger] a.effect_layers@[i]).1.keys@
                == b.effect_layers@[i].1.keys@,
    ensures
        a.frame_spec() == b.frame_spec(),
{
    assert forall|idx: int| 0 <= idx < a.render_layer.keys@.len() implies a.frame_spec()[idx]
        == b.frame_spec()[idx] by {
        lemma_composite_cell_congruence(
            a.render_layer.keys@[idx].color,
            layer_mats(a.effect_layers@),
            layer_mats(b.effect_layers@),
            idx,
        );
    }
    assert(a.frame_spec() =~= b.frame_spec());
}

/// Whether the layer at `pos` is keyed strictly below `z`: the loop
/// condition of the sorted insert.
fn z_gt(layers: &Vec<(i32, KeyboardMatrix)>, pos: usize, z: i32) -> (r: bool)
    requires
        pos < layers@.len(),
    ensures
        r == (layers@[pos as int].0 < z),
{
    layers[pos].0 < z
}

/// Whether the layer at `pos` is keyed exactly `z`: the search loop's test.
fn z_eq(layers: &Vec<(i32, KeyboardMatrix)>, pos: usize, z: i32) -> (r: bool)
    requires
        pos < layers@.len(),
    ensures
        r == (layers@[pos as int].0 == z),
{
    layers[pos].0 == z
}

/// Replacing the layer at an index keyed `z` leaves every other Z-index's
/// presence and layer unchanged.
proof fn lemma_layer_swap_others(
    s0: Seq<(i32, KeyboardMatrix)>,
    s1: Seq<(i32, KeyboardMatrix)>,
    z: i32,
    pos: int,
)
    requires
        sorted_by_z(s0),
        sorted_by_z(s1),
        0 <= pos < s0.len(),
        s0[pos].0 == z,
        s1.len() == s0.len(),
        s1[pos].0 == z,
        forall|t: int| 0 <= t < s0.len() && t != pos ==> s1[t] == s0[t],
    ensures
        forall|w: i32| w != z ==> #[trigger] has_z(s1, w) == has_z(s0, w),
        forall|w: i32| w != z && has_z(s0, w) ==> #[trigger] layer_at(s1, w) == layer_at(s0, w),
{
    assert forall|w: i32| w != z implies #[trigger] has_z(s1, w) == has_z(s0, w) by {
        if has_z(s0, w) {
            let j = choose|j: int| 0 <= j < s0.len() && (#[trigger] s0[j]).0 == w;
            assert(s1[j].0 == w);
        }
        if has_z(s1, w) {
            let j = choose|j: int| 0 <= j < s1.len() && (#[trigger] s1[j]).0 == w;
            assert(s0[j].0 == w);
        }
    }
    assert forall|w: i32| w != z && has_z(s0, w) implies #[trigger] layer_at(s1, w) == layer_at(
        s0,
        w,
    ) by {
        let j = choose|j: int| 0 <= j < s0.len() && (#[trigger] s0[j]).0 == w;
        lemma_layer_at_agrees(s0, w, j);
        lemma_layer_at_agrees(s1, w, j);
    }
}

/// Inserting a layer keyed `z` at its sorted position leaves every other
/// Z-index's presence and layer unchanged.
proof fn lemma_layer_insert_others(
    s0: Seq<(i32, KeyboardMatrix)>,
    s1: Seq<(i32, KeyboardMatrix)>,
    z: i32,
    pos: int,
)
    requires
        sorted_by_z(s0),
        sorted_by_z(s1),
        0 <= pos <= s0.len(),
        s1.len() == s0.len() + 1,
        s1[pos].0 == z,
        forall|t: int| 0 <= t < pos ==> s1[t] == s0[t],
        forall|t: int| pos < t < s1.len() ==> s1[t] == s0[t - 1],
    ensures
        forall|w: i32| w != z ==> #[trigger] has_z(s1, w) == has_z(s0, w),
        forall|w: i32| w != z && has_z(s0, w) ==> #[trigger] layer_at(s1, w) == layer_at(s0, w),
{
    assert forall|w: i32| w != z implies #[trigger] has_z(s1, w) == has_z(s0, w) by {
        if has_z(s0, w) {
            let j = choose|j: int| 0 <= j < s0.len() && (#[trigger] s0[j]).0 == w;
            if j < pos {
                assert(s1[j].0 == w);
            } else {
                assert(s1[j + 1].0 == w);
            }
        }
        if has_z(s1, w) {
            let j = choose|j: int| 0 <= j < s1.len() && (#[trigger] s1[j]).0 == w;
            if j < pos {
                assert(s0[j].0 == w);
            } else {
                assert(s0[j - 1].0 == w);
            }
        }
    }
    assert forall|w: i32| w != z && has_z(s0, w) implies #[trigger] layer_at(s1, w) == layer_at(
        s0,
        w,
    ) by {
        let j = choose|j: int| 0 <= j < s0.len() && (#[trigger] s0[j]).0 == w;
        lemma_layer_at_agrees(s0, w, j);
        if j < pos {
            lemma_layer_at_agrees(s1, w, j);
        } else {
            lemma_layer_at_agrees(s1, w, j + 1);
        }
    }
}

/// The default (scan code = cell index) table the runtime's own watcher is
/// built over; a device driver substitutes the hardware's own table.
pub fn default_scan_table() -> (table: Vec<(u16, (u8, u8))>)
    ensures
        table@.len() == MATRIX_CELLS,
        forall|i: int|
            0 <= i < MATRIX_CELLS ==> #[trigger] table@[i] == (
                i as u16,
                ((i / 21) as u8, (i % 21) as u8),
            ),
        forall|i: int|
            0 <= i < table@.len() ==> (#[trigger] table@[i]).1.0 < 6 && table@[i].1.1 < 21,
{
    let mut table: Vec<(u16, (u8, u8))> = Vec::new();
    let mut i: usize = 0;
    while i < MATRIX_CELLS
        invariant
            i <= MATRIX_CELLS,
            table@.len() == i,
            forall|t: int|
                0 <= t < i ==> #[trigger] table@[t] == (
                    t as u16,
                    ((t / 21) as u8, (t % 21) as u8),
                ),
            forall|t: int|
                0 <= t < i ==> (#[trigger] table@[t]).1.0 < 6 && table@[t].1.1 < 21,
        decreases MATRIX_CELLS - i,
    {
        table.push((i as u16, ((i / 21) as u8, (i % 21) as u8)));
        i = i + 1;
    }
    table
}

} // verus!
