//! The analog sampling state machine: per-key press depth, velocity, moving
//! average and edge detection, advanced one scan at a time.
//!
//! A scan takes the raw batch the sensor returned — (scan code, quantized
//! 0–255 press depth) pairs — and the time elapsed since the previous scan,
//! and folds them into every tracked key: depth and previous depth, an
//! instantaneous velocity estimate, a moving average over a fixed-capacity
//! ring of recent velocities, and the `just_pressed` edge flag, which is set
//! exactly when the depth crosses the press threshold from below and stays
//! set until it is explicitly consumed.

use vstd::prelude::*;

use vstd::std_specs::vec::vec_index_mut;

use crate::arith::{lemma_round_div_bound, lemma_trunc_div_bound, round_div, round_div_i64,
    trunc_div, trunc_div_i64};
use crate::key::Key;
use crate::keyboard::matrix::{get_matrix, layout_key, KeyboardMatrix, MATRIX_CELLS};
use crate::keyboard::ring::{ring_cap, ring_capacity, ring_enqueue, ring_model, ring_new,
    ring_to_vec};

verus! {

/// The largest velocity magnitude a scan can produce: a full-depth swing
/// (255) in one microsecond, in the sampler's velocity unit.
pub const VELOCITY_LIMIT: i32 = 25_500_000;

/// One key's analog sensing record.
#[derive(Clone, Copy, Debug, Default)]
pub struct KeyDelta {
    /// Identity: (row, column) in the key matrix.
    pub key: (u8, u8),
    /// The sensor's scan code for this key.
    pub scan_code: u16,
    /// Quantized press depth, 0 (rest) to 255 (fully pressed).
    pub distance: u8,
    /// The depth the previous scan left behind.
    pub last_distance: u8,
    /// Instantaneous velocity estimate of the latest scan.
    pub delta: i32,
    /// Moving average of recent velocities over the configured window.
    pub delta_average: i32,
    /// At what depth the key counts as pressed down
    /// (from 0 to 255, 255 being completely pressed down).
    pub key_press_distance: u8,
    /// Edge flag: a press threshold was crossed since the last consume.
    pub just_pressed: bool,
}

impl KeyDelta {
    /// Whether the key was pressed just now.
    pub fn just_pressed(&self) -> (r: bool)
        ensures
            r == self.just_pressed,
    {
        self.just_pressed
    }

    /// Should be called periodically to clear just presses.
    /// The runtime does this once per tick when it owns an analog watcher.
    pub fn just_pressed_consume(&mut self)
        ensures
            *final(self) == (KeyDelta { just_pressed: false, ..*old(self) }),
    {
        self.just_pressed = false;
    }
}

/// The velocity estimate of one scan: the depth change per elapsed time,
/// in the sign convention where pressing further down is positive.  A scan
/// with no elapsed time yields zero rather than an undefined quotient.
pub open spec fn velocity_spec(last: u8, dist: u8, elapsed_us: u64) -> int {
    if elapsed_us == 0 {
        0
    } else {
        -round_div((last - dist) * 100_000, elapsed_us as int)
    }
}

pub proof fn lemma_velocity_bounded(last: u8, dist: u8, elapsed_us: u64)
    ensures
        -VELOCITY_LIMIT <= velocity_spec(last, dist, elapsed_us) <= VELOCITY_LIMIT,
{
    if elapsed_us != 0 {
        let d = elapsed_us as int;
        let n = (last - dist) * 100_000;
        assert(VELOCITY_LIMIT as int <= VELOCITY_LIMIT as int * d) by (nonlinear_arith)
            requires
                1 <= d,
        ;
        lemma_round_div_bound(n, d, VELOCITY_LIMIT as int);
    }
}

/// Velocity computation: `-(round((last - dist) / (elapsed_seconds * 10)))`
/// over exact integer arithmetic, with elapsed time in microseconds; a zero
/// elapsed time yields zero.
pub fn velocity(last_distance: u8, distance: u8, elapsed_us: u64) -> (v: i32)
    requires
        elapsed_us <= i64::MAX as u64,
    ensures
        v == velocity_spec(last_distance, distance, elapsed_us),
        -VELOCITY_LIMIT <= v <= VELOCITY_LIMIT,
{
    proof {
        lemma_velocity_bounded(last_distance, distance, elapsed_us);
    }
    if elapsed_us == 0 {
        return 0;
    }
    let dx: i64 = last_distance as i64 - distance as i64;
    let r = round_div_i64(dx * 100_000, elapsed_us as i64);
    proof {
        lemma_round_div_bound(dx as int * 100_000, elapsed_us as int, VELOCITY_LIMIT as int);
        assert(VELOCITY_LIMIT as int <= VELOCITY_LIMIT as int * elapsed_us) by (nonlinear_arith)
            requires
                1 <= elapsed_us as int,
        ;
    }
    (-r) as i32
}

/// Whether a depth reading crosses the press threshold from below.
pub open spec fn crossed_threshold(last: u8, dist: u8, press_distance: u8) -> bool {
    dist >= press_distance && last < press_distance
}

/// One raw sample applied to a key's record: depths shift, the velocity is
/// recomputed, and the edge flag latches on an upward threshold crossing.
pub open spec fn sample_step(k: KeyDelta, dist: u8, elapsed_us: u64) -> KeyDelta {
    KeyDelta {
        last_distance: k.distance,
        distance: dist,
        delta: velocity_spec(k.distance, dist, elapsed_us) as i32,
        just_pressed: k.just_pressed || crossed_threshold(k.distance, dist, k.key_press_distance),
        ..k
    }
}

/// All of a batch's samples for one key, applied in batch order.
pub open spec fn batch_fold(k: KeyDelta, batch: Seq<(u16, u8)>, elapsed_us: u64) -> KeyDelta
    decreases batch.len(),
{
    if batch.len() == 0 {
        k
    } else {
        let k1 = if batch[0].0 == k.scan_code {
            sample_step(k, batch[0].1, elapsed_us)
        } else {
            k
        };
        batch_fold(k1, batch.drop_first(), elapsed_us)
    }
}

pub open spec fn batch_has_code(batch: Seq<(u16, u8)>, code: u16) -> bool {
    exists|j: int| 0 <= j < batch.len() && batch[j].0 == code
}

/// What an enqueue leaves in a ring of the given capacity.
pub open spec fn enq_model(s: Seq<i32>, v: i32, cap: nat) -> Seq<i32> {
    if s.len() < cap {
        s.push(v)
    } else {
        s.drop_first().push(v)
    }
}

/// The sum of a sequence of velocity samples.
pub open spec fn sum_of(s: Seq<i32>) -> int
    decreases s.len(),
{
    if s.len() == 0 {
        0
    } else {
        sum_of(s.drop_last()) + s.last()
    }
}

/// A velocity ring in good standing: within capacity, every sample bounded.
pub open spec fn ring_ok(s: Seq<i32>, cap: nat) -> bool {
    &&& s.len() <= cap
    &&& forall|j: int| 0 <= j < s.len() ==> -VELOCITY_LIMIT <= #[trigger] s[j] <= VELOCITY_LIMIT
}

pub proof fn lemma_sum_bounded(s: Seq<i32>, b: int)
    requires
        0 <= b,
        forall|j: int| 0 <= j < s.len() ==> -b <= #[trigger] s[j] <= b,
    ensures
        -(s.len() * b) <= sum_of(s) <= s.len() * b,
    decreases s.len(),
{
    if s.len() > 0 {
        lemma_sum_bounded(s.drop_last(), b);
        assert(-b <= s[s.len() - 1] <= b);
        assert((s.len() - 1) * b + b == s.len() * b) by (nonlinear_arith);
    }
}

/// The ring contents after one scan of one key: history is discarded when the
/// configured window has changed since the last scan, then the key's velocity
/// (or a zero sample, when the batch carried nothing for this key) goes in.
pub open spec fn scan_ring_spec(
    ring: Seq<i32>,
    cap: nat,
    folded: KeyDelta,
    matched: bool,
    window: u64,
) -> Seq<i32> {
    let base = if cap != window {
        Seq::<i32>::empty()
    } else {
        ring
    };
    enq_model(base, if matched { folded.delta } else { 0i32 }, window as nat)
}

/// A key's record after one scan: the batch folded in, and the moving
/// average recomputed as the ring's sum divided by the configured window
/// size (not by the ring's occupancy — a part-full ring under-reports).
pub open spec fn scan_key_spec(
    k: KeyDelta,
    ring: Seq<i32>,
    cap: nat,
    batch: Seq<(u16, u8)>,
    elapsed_us: u64,
    window: u64,
) -> KeyDelta {
    let folded = batch_fold(k, batch, elapsed_us);
    let ring1 = scan_ring_spec(ring, cap, folded, batch_has_code(batch, k.scan_code), window);
    KeyDelta { delta_average: trunc_div(sum_of(ring1), window as int) as i32, ..folded }
}

/// Advance one key's record and its velocity ring by one scan.
fn scan_one(
    k: &mut KeyDelta,
    rb: &mut ringbuffer::AllocRingBuffer<i32>,
    batch: &Vec<(u16, u8)>,
    elapsed_us: u64,
    window: u64,
)
    requires
        elapsed_us <= i64::MAX as u64,
        1 <= window <= i32::MAX as u64,
        ring_ok(ring_model(*old(rb)), ring_cap(*old(rb))),
    ensures
        *final(k) == scan_key_spec(
            *old(k),
            ring_model(*old(rb)),
            ring_cap(*old(rb)),
            batch@,
            elapsed_us,
            window,
        ),
        ring_model(*final(rb)) == scan_ring_spec(
            ring_model(*old(rb)),
            ring_cap(*old(rb)),
            batch_fold(*old(k), batch@, elapsed_us),
            batch_has_code(batch@, old(k).scan_code),
            window,
        ),
        ring_cap(*final(rb)) == window,
        ring_ok(ring_model(*final(rb)), ring_cap(*final(rb))),
{
    let ghost k0 = *k;
    let mut cur = *k;
    let mut matched = false;
    let n = batch.len();
    proof {
        assert(batch@.skip(0) =~= batch@);
        assert(batch@.take(0) =~= Seq::<(u16, u8)>::empty());
    }
    let mut j: usize = 0;
    while j < n
        invariant
            j <= n,
            n == batch@.len(),
            elapsed_us <= i64::MAX as u64,
            cur.scan_code == k0.scan_code,
            batch_fold(k0, batch@, elapsed_us) == batch_fold(cur, batch@.skip(j as int), elapsed_us),
            matched == batch_has_code(batch@.take(j as int), k0.scan_code),
            matched ==> -VELOCITY_LIMIT <= cur.delta <= VELOCITY_LIMIT,
        decreases n - j,
    {
        let entry = batch[j];
        proof {
            assert(batch@.skip(j as int)[0] == batch@[j as int]);
            assert(batch@.skip(j as int).drop_first() =~= batch@.skip(j as int + 1));
            assert(batch@.take(j as int + 1).drop_last() =~= batch@.take(j as int));
            assert(batch@.take(j as int + 1).last() == batch@[j as int]);
            assert(batch_has_code(batch@.take(j as int + 1), k0.scan_code) == (
                batch_has_code(batch@.take(j as int), k0.scan_code)
                    || batch@[j as int].0 == k0.scan_code)) by {
                let t = batch@.take(j as int + 1);
                if batch_has_code(t, k0.scan_code) {
                    let w = choose|w: int| 0 <= w < t.len() && t[w].0 == k0.scan_code;
                    if w < j {
                        assert(batch@.take(j as int)[w].0 == k0.scan_code);
                    }
                }
                if batch_has_code(batch@.take(j as int), k0.scan_code) {
                    let w = choose|w: int|
                        0 <= w < j && batch@.take(j as int)[w].0 == k0.scan_code;
                    assert(t[w].0 == k0.scan_code);
                }
                if batch@[j as int].0 == k0.scan_code {
                    assert(t[j as int].0 == k0.scan_code);
                }
            }
        }
        if entry.0 == cur.scan_code {
            let v = velocity(cur.distance, entry.1, elapsed_us);
            let pressed_now = entry.1 >= cur.key_press_distance
                && cur.distance < cur.key_press_distance;
            cur = KeyDelta {
                last_distance: cur.distance,
                distance: entry.1,
                delta: v,
                just_pressed: cur.just_pressed || pressed_now,
                ..cur
            };
            matched = true;
        }
        j = j + 1;
    }
    proof {
        assert(batch@.skip(n as int) =~= Seq::<(u16, u8)>::empty());
        assert(batch@.take(n as int) =~= batch@);
        assert(cur == batch_fold(k0, batch@, elapsed_us));
    }
    let window_usize = window as usize;
    if ring_capacity(rb) != window_usize {
        *rb = ring_new(window_usize);
    }
    let sample = if matched {
        cur.delta
    } else {
        0
    };
    ring_enqueue(rb, sample);
    let samples = ring_to_vec(rb);
    let ghost ring1 = ring_model(*rb);
    proof {
        assert(ring1 == scan_ring_spec(
            ring_model(*old(rb)),
            ring_cap(*old(rb)),
            cur,
            matched,
            window,
        ));
        assert(ring_ok(ring1, window as nat));
    }
    let len = samples.len();
    let mut acc: i64 = 0;
    let mut i: usize = 0;
    while i < len
        invariant
            i <= len,
            len == samples@.len(),
            samples@ == ring1,
            1 <= window <= i32::MAX as u64,
            ring_ok(ring1, window as nat),
            acc == sum_of(samples@.take(i as int)),
            -(i as int * VELOCITY_LIMIT) <= acc as int <= i as int * VELOCITY_LIMIT,
        decreases len - i,
    {
        proof {
            assert(samples@.take(i as int + 1).drop_last() =~= samples@.take(i as int));
            assert(samples@.take(i as int + 1).last() == samples@[i as int]);
            assert(-VELOCITY_LIMIT <= samples@[i as int] <= VELOCITY_LIMIT);
            let v = VELOCITY_LIMIT as int;
            let ii = i as int;
            let w = window as int;
            assert(ii + 1 <= w);
            assert(ii * v + v <= w * v) by (nonlinear_arith)
                requires
                    ii + 1 <= w,
                    0 <= v,
            ;
            assert(w * v < 0x4000_0000_0000_0000) by (nonlinear_arith)
                requires
                    0 <= w <= 0x7fff_ffff,
                    0 <= v <= 0x7fff_ffff,
            ;
        }
        acc = acc + samples[i] as i64;
        i = i + 1;
    }
    proof {
        assert(samples@.take(len as int) =~= samples@);
        assert(len as int * VELOCITY_LIMIT <= window as int * VELOCITY_LIMIT) by {
            vstd::arithmetic::mul::lemma_mul_inequality(
                len as int,
                window as int,
                VELOCITY_LIMIT as int,
            );
        }
        lemma_trunc_div_bound(acc as int, window as int, VELOCITY_LIMIT as int);
    }
    let average = trunc_div_i64(acc, window as i64) as i32;
    cur = KeyDelta { delta_average: average, ..cur };
    *k = cur;
}

/// The predicate the pressed-key queries filter by: any depth above rest.
pub open spec fn pressed_pred() -> spec_fn(KeyDelta) -> bool {
    |k: KeyDelta| k.distance > 0
}

/// Whether some cell of the matrix carries this key identity.
pub open spec fn matrix_has_id(m: KeyboardMatrix, id: (u8, u8)) -> bool {
    exists|i: int| 0 <= i < m.keys@.len() && (#[trigger] m.keys@[i]).key == id
}

/// The first matrix key carrying this identity.
pub open spec fn first_key_with_id(s: Seq<Key>, id: (u8, u8)) -> Key
    recommends
        exists|i: int| 0 <= i < s.len() && (#[trigger] s[i]).key == id,
    decreases s.len(),
{
    if s.len() == 0 {
        s[0]
    } else if s[0].key == id {
        s[0]
    } else {
        first_key_with_id(s.drop_first(), id)
    }
}

/// The record a fresh watcher starts with for one table entry: everything at
/// rest, nothing pressed.
pub open spec fn fresh_key_delta(entry: (u16, (u8, u8)), key_press_distance: u8) -> KeyDelta {
    KeyDelta {
        key: entry.1,
        scan_code: entry.0,
        distance: 0,
        last_distance: 0,
        delta: 0,
        delta_average: 0,
        key_press_distance,
        just_pressed: false,
    }
}

/// Batch folding touches only the sensed fields; a key's identity, scan code
/// and press threshold ride through every scan unchanged.
pub proof fn lemma_batch_fold_preserves_identity(k: KeyDelta, batch: Seq<(u16, u8)>, elapsed_us: u64)
    ensures
        batch_fold(k, batch, elapsed_us).key == k.key,
        batch_fold(k, batch, elapsed_us).scan_code == k.scan_code,
        batch_fold(k, batch, elapsed_us).key_press_distance == k.key_press_distance,
    decreases batch.len(),
{
    if batch.len() > 0 {
        let k1 = if batch[0].0 == k.scan_code {
            sample_step(k, batch[0].1, elapsed_us)
        } else {
            k
        };
        lemma_batch_fold_preserves_identity(k1, batch.drop_first(), elapsed_us);
    }
}

/// Scanning never clears the edge flag: once `just_pressed` is set it stays
/// set through any number of samples and scans, until a consume clears it.
pub proof fn lemma_just_pressed_persists(k: KeyDelta, batch: Seq<(u16, u8)>, elapsed_us: u64)
    requires
        k.just_pressed,
    ensures
        batch_fold(k, batch, elapsed_us).just_pressed,
    decreases batch.len(),
{
    if batch.len() > 0 {
        let k1 = if batch[0].0 == k.scan_code {
            sample_step(k, batch[0].1, elapsed_us)
        } else {
            k
        };
        lemma_just_pressed_persists(k1, batch.drop_first(), elapsed_us);
    }
}

/// The edge flag turns on only on an upward crossing of the press
/// threshold: when a fold sets a previously clear flag, some sample for
/// this key moved the depth from below the threshold to at or above it.
pub proof fn lemma_just_pressed_needs_crossing(k: KeyDelta, batch: Seq<(u16, u8)>, elapsed_us: u64)
    requires
        !k.just_pressed,
        batch_fold(k, batch, elapsed_us).just_pressed,
    ensures
        exists|j: int|
            0 <= j < batch.len() && (#[trigger] batch[j]).0 == k.scan_code && crossed_threshold(
                batch_fold(k, batch.take(j), elapsed_us).distance,
                batch[j].1,
                k.key_press_distance,
            ),
    decreases batch.len(),
{
    let k1 = if batch[0].0 == k.scan_code {
        sample_step(k, batch[0].1, elapsed_us)
    } else {
        k
    };
    if k1.just_pressed {
        assert(batch.take(0) =~= Seq::<(u16, u8)>::empty());
        assert(batch[0].0 == k.scan_code && crossed_threshold(
            batch_fold(k, batch.take(0), elapsed_us).distance,
            batch[0].1,
            k.key_press_distance,
        ));
    } else {
        lemma_just_pressed_needs_crossing(k1, batch.drop_first(), elapsed_us);
        let rest = batch.drop_first();
        let jr = choose|jr: int|
            0 <= jr < rest.len() && (#[trigger] rest[jr]).0 == k1.scan_code && crossed_threshold(
                batch_fold(k1, rest.take(jr), elapsed_us).distance,
                rest[jr].1,
                k1.key_press_distance,
            );
        let j = jr + 1;
        assert(batch[j] == rest[jr]);
        assert(batch.take(j)[0] == batch[0]);
        assert(batch.take(j).drop_first() =~= rest.take(jr));
        assert(batch_fold(k, batch.take(j), elapsed_us) == batch_fold(
            k1,
            rest.take(jr),
            elapsed_us,
        ));
    }
}

/// A whole scan obeys the batch rule for the edge flag: a set flag stays
/// set — only a consume, never a scan, clears it.
pub proof fn lemma_scan_keeps_edge(
    k: KeyDelta,
    ring: Seq<i32>,
    cap: nat,
    batch: Seq<(u16, u8)>,
    elapsed_us: u64,
    window: u64,
)
    requires
        k.just_pressed,
    ensures
        scan_key_spec(k, ring, cap, batch, elapsed_us, window).just_pressed,
{
    lemma_just_pressed_persists(k, batch, elapsed_us);
}

/// The analog sampling subsystem's state: one record and one velocity ring
/// per tracked key, plus the scan configuration.  The state machine is
/// advanced one `scan` at a time; a driver loop around it supplies the raw
/// sensor batches and the pacing, and publishes the fields it reads.
#[derive(Debug)]
pub struct DeltaWatcher {
    /// Per key delta data and related.
    pub keys: Vec<KeyDelta>,
    /// One velocity ring per tracked key, same order as `keys`.
    pub rings: Vec<ringbuffer::AllocRingBuffer<i32>>,
    /// How much to wait in nanoseconds before scanning key states again.
    pub scan_delay_ns: u64,
    /// How many delta data should be in an average delta calculation.
    pub deltas_in_average: u64,
    /// To stop the delta watcher (true) or not (false).
    pub exit: bool,
    /// Whether the watcher should be in power save mode or not.
    pub idle: bool,
    /// The key matrix the tracked keys are identified against.
    pub mat_keys: KeyboardMatrix,
}

impl DeltaWatcher {
    /// How many velocity rings the watcher holds (one per tracked key).
    pub closed spec fn rings_len(self) -> nat {
        self.rings@.len()
    }

    /// The velocity samples ring `i` holds, oldest first.
    pub closed spec fn ring_contents(self, i: int) -> Seq<i32> {
        ring_model(self.rings@[i])
    }

    /// The capacity ring `i` was made with.
    pub closed spec fn ring_cap_at(self, i: int) -> nat {
        ring_cap(self.rings@[i])
    }

    /// Well-formed: a ring per key, a usable window size, every ring in good
    /// standing, and every tracked key present in the matrix.
    pub open spec fn wf(self) -> bool {
        &&& self.rings_len() == self.keys@.len()
        &&& 1 <= self.deltas_in_average <= i32::MAX as u64
        &&& self.mat_keys.wf()
        &&& forall|i: int|
            0 <= i < self.keys@.len() ==> ring_ok(
                #[trigger] self.ring_contents(i),
                self.ring_cap_at(i),
            )
        &&& forall|i: int|
            0 <= i < self.keys@.len() ==> matrix_has_id(
                self.mat_keys,
                (#[trigger] self.keys@[i]).key,
            )
    }

    /// Well-formedness does not depend on the control flags: a watcher that
    /// differs only in `exit`, `idle` or the scan pacing stays well-formed.
    pub proof fn lemma_wf_same_core(self, other: DeltaWatcher)
        requires
            self.wf(),
            other.keys == self.keys,
            other.rings == self.rings,
            other.mat_keys == self.mat_keys,
            other.deltas_in_average == self.deltas_in_average,
        ensures
            other.wf(),
    {
        assert forall|t: int| 0 <= t < other.keys@.len() implies ring_ok(
            #[trigger] other.ring_contents(t),
            other.ring_cap_at(t),
        ) by {
            assert(other.ring_contents(t) == self.ring_contents(t));
            assert(other.ring_cap_at(t) == self.ring_cap_at(t));
            assert(ring_ok(self.ring_contents(t), self.ring_cap_at(t)));
        }
        assert forall|t: int| 0 <= t < other.keys@.len() implies matrix_has_id(
            other.mat_keys,
            (#[trigger] other.keys@[t]).key,
        ) by {
            assert(matrix_has_id(self.mat_keys, self.keys@[t].key));
        }
    }

    /// A watcher over the given (scan code, matrix position) table, every
    /// record at rest.  The caller's driver loop feeds it scans.
    pub fn new(
        scan_delay_ns: u64,
        deltas_in_average: u64,
        key_press_distance: u8,
        table: &Vec<(u16, (u8, u8))>,
    ) -> (w: DeltaWatcher)
        requires
            1 <= deltas_in_average <= i32::MAX as u64,
            forall|i: int|
                0 <= i < table@.len() ==> (#[trigger] table@[i]).1.0 < 6 && table@[i].1.1 < 21,
        ensures
            w.wf(),
            w.keys@.len() == table@.len(),
            forall|i: int|
                0 <= i < table@.len() ==> #[trigger] w.keys@[i] == fresh_key_delta(
                    table@[i],
                    key_press_distance,
                ),
            forall|i: int|
                0 <= i < table@.len() ==> #[trigger] w.ring_contents(i) == Seq::<i32>::empty()
                    && w.ring_cap_at(i) == deltas_in_average,
            w.scan_delay_ns == scan_delay_ns,
            w.deltas_in_average == deltas_in_average,
            !w.exit,
            !w.idle,
            forall|i: int|
                0 <= i < MATRIX_CELLS ==> #[trigger] w.mat_keys.keys@[i] == layout_key(
                    i / 21,
                    i % 21,
                ),
    {
        let n = table.len();
        let mut keys: Vec<KeyDelta> = Vec::new();
        let mut rings: Vec<ringbuffer::AllocRingBuffer<i32>> = Vec::new();
        let mut i: usize = 0;
        while i < n
            invariant
                i <= n,
                n == table@.len(),
                1 <= deltas_in_average <= i32::MAX as u64,
                keys@.len() == i,
                rings@.len() == i,
                forall|t: int|
                    0 <= t < i ==> #[trigger] keys@[t] == fresh_key_delta(
                        table@[t],
                        key_press_distance,
                    ),
                forall|t: int|
                    0 <= t < i ==> ring_model(#[trigger] rings@[t]) == Seq::<i32>::empty()
                        && ring_cap(rings@[t]) == deltas_in_average,
            decreases n - i,
        {
            let entry = table[i];
            keys.push(
                KeyDelta {
                    key: entry.1,
                    scan_code: entry.0,
                    distance: 0,
                    last_distance: 0,
                    delta: 0,
                    delta_average: 0,
                    key_press_distance,
                    just_pressed: false,
                },
            );
            rings.push(ring_new(deltas_in_average as usize));
            i = i + 1;
        }
        let mat_keys = get_matrix();
        let w = DeltaWatcher {
            keys,
            rings,
            scan_delay_ns,
            deltas_in_average,
            exit: false,
            idle: false,
            mat_keys,
        };
        proof {
            assert forall|t: int| 0 <= t < w.keys@.len() implies matrix_has_id(
                w.mat_keys,
                (#[trigger] w.keys@[t]).key,
            ) by {
                let r = table@[t].1.0 as int;
                let c = table@[t].1.1 as int;
                let cell = r * 21 + c;
                assert(0 <= cell < MATRIX_CELLS);
                assert(cell / 21 == r && cell % 21 == c) by (nonlinear_arith)
                    requires
                        0 <= r < 6,
                        0 <= c < 21,
                        cell == r * 21 + c,
                ;
                assert(w.mat_keys.keys@[cell].key == table@[t].1);
            }
        }
        w
    }

    /// Creates an uninitialized dummy watcher: always idle, zero-valued, one
    /// record per matrix cell, so callers need never special-case the
    /// absence of real sensing.
    ///
    /// Its averaging window is one sample — deliberately the smallest the
    /// velocity ring allows, rather than zero: a zero-capacity ring cannot
    /// be constructed and the moving average divides by the window, so a
    /// zero window could never survive a scan.  Nothing is meant to scan a
    /// dummy; one that is scanned anyway stays zero-valued.
    pub fn dummy() -> (w: DeltaWatcher)
        ensures
            w.wf(),
            w.keys@.len() == MATRIX_CELLS,
            forall|i: int|
                0 <= i < MATRIX_CELLS ==> #[trigger] w.keys@[i] == fresh_key_delta(
                    (0u16, (0u8, 0u8)),
                    0u8,
                ),
            w.scan_delay_ns == 0,
            w.deltas_in_average == 1,
            !w.exit,
            w.idle,
            forall|i: int|
                0 <= i < MATRIX_CELLS ==> #[trigger] w.mat_keys.keys@[i] == layout_key(
                    i / 21,
                    i % 21,
                ),
    {
        let mut table: Vec<(u16, (u8, u8))> = Vec::new();
        let mut i: usize = 0;
        while i < MATRIX_CELLS
            invariant
                i <= MATRIX_CELLS,
                table@.len() == i,
                forall|t: int| 0 <= t < i ==> #[trigger] table@[t] == (0u16, (0u8, 0u8)),
            decreases MATRIX_CELLS - i,
        {
            table.push((0u16, (0u8, 0u8)));
            i = i + 1;
        }
        let w0 = DeltaWatcher::new(0, 1, 0, &table);
        let ghost wg = w0;
        let mut w = w0;
        w.idle = true;
        proof {
            assert forall|t: int| 0 <= t < w.keys@.len() implies ring_ok(
                #[trigger] w.ring_contents(t),
                w.ring_cap_at(t),
            ) by {
                assert(w.ring_contents(t) == wg.ring_contents(t));
                assert(w.ring_cap_at(t) == wg.ring_cap_at(t));
                assert(ring_ok(wg.ring_contents(t), wg.ring_cap_at(t)));
            }
            assert forall|t: int| 0 <= t < w.keys@.len() implies matrix_has_id(
                w.mat_keys,
                (#[trigger] w.keys@[t]).key,
            ) by {
                assert(matrix_has_id(wg.mat_keys, wg.keys@[t].key));
            }
        }
        w
    }

    /// Advance every tracked key by one scan: fold the raw batch in, push a
    /// velocity (or zero) sample into each ring, and recompute the averages.
    pub fn scan(&mut self, batch: &Vec<(u16, u8)>, elapsed_us: u64)
        requires
            old(self).wf(),
            elapsed_us <= i64::MAX as u64,
        ensures
            final(self).wf(),
            final(self).keys@.len() == old(self).keys@.len(),
            final(self).scan_delay_ns == old(self).scan_delay_ns,
            final(self).deltas_in_average == old(self).deltas_in_average,
            final(self).exit == old(self).exit,
            final(self).idle == old(self).idle,
            final(self).mat_keys == old(self).mat_keys,
            forall|i: int|
                0 <= i < old(self).keys@.len() ==> #[trigger] final(self).keys@[i]
                    == scan_key_spec(
                    old(self).keys@[i],
                    old(self).ring_contents(i),
                    old(self).ring_cap_at(i),
                    batch@,
                    elapsed_us,
                    old(self).deltas_in_average,
                ),
            forall|i: int|
                0 <= i < old(self).keys@.len() ==> #[trigger] final(self).ring_contents(i)
                    == scan_ring_spec(
                    old(self).ring_contents(i),
                    old(self).ring_cap_at(i),
                    batch_fold(old(self).keys@[i], batch@, elapsed_us),
                    batch_has_code(batch@, old(self).keys@[i].scan_code),
                    old(self).deltas_in_average,
                ),
    {
        let window = self.deltas_in_average;
        let n = self.keys.len();
        let mut i: usize = 0;
        while i < n
            invariant
                i <= n,
                n == self.keys@.len(),
                self.rings@.len() == n,
                1 <= window <= i32::MAX as u64,
                elapsed_us <= i64::MAX as u64,
                window == self.deltas_in_average,
                self.deltas_in_average == old(self).deltas_in_average,
                self.scan_delay_ns == old(self).scan_delay_ns,
                self.exit == old(self).exit,
                self.idle == old(self).idle,
                self.mat_keys == old(self).mat_keys,
                old(self).wf(),
                n == old(self).keys@.len(),
                forall|t: int| i <= t < n ==> self.keys@[t] == old(self).keys@[t],
                forall|t: int| i <= t < n ==> self.rings@[t] == old(self).rings@[t],
                forall|t: int|
                    0 <= t < i ==> #[trigger] self.keys@[t] == scan_key_spec(
                        old(self).keys@[t],
                        old(self).ring_contents(t),
                        old(self).ring_cap_at(t),
                        batch@,
                        elapsed_us,
                        window,
                    ),
                forall|t: int|
                    0 <= t < i ==> ring_model(#[trigger] self.rings@[t]) == scan_ring_spec(
                        old(self).ring_contents(t),
                        old(self).ring_cap_at(t),
                        batch_fold(old(self).keys@[t], batch@, elapsed_us),
                        batch_has_code(batch@, old(self).keys@[t].scan_code),
                        window,
                    ),
                forall|t: int|
                    0 <= t < i ==> ring_ok(
                        ring_model(#[trigger] self.rings@[t]),
                        ring_cap(self.rings@[t]),
                    ) && ring_cap(self.rings@[t]) == window,
            decreases n - i,
        {
            proof {
                assert(old(self).ring_contents(i as int) == ring_model(
                    old(self).rings@[i as int],
                ));
                assert(ring_ok(old(self).ring_contents(i as int), old(self).ring_cap_at(i as int)));
                assert(self.rings@[i as int] == old(self).rings@[i as int]);
            }
            let kref = vec_index_mut(&mut self.keys, i);
            let rref = vec_index_mut(&mut self.rings, i);
            scan_one(kref, rref, batch, elapsed_us, window);
            i = i + 1;
        }
        proof {
            assert forall|t: int| 0 <= t < n implies matrix_has_id(
                self.mat_keys,
                (#[trigger] self.keys@[t]).key,
            ) by {
                lemma_batch_fold_preserves_identity(old(self).keys@[t], batch@, elapsed_us);
                assert(self.keys@[t].key == old(self).keys@[t].key);
            }
            assert forall|t: int| 0 <= t < n implies ring_ok(
                #[trigger] self.ring_contents(t),
                self.ring_cap_at(t),
            ) by {
                assert(ring_ok(ring_model(self.rings@[t]), ring_cap(self.rings@[t])));
            }
            assert forall|t: int| 0 <= t < n implies #[trigger] self.ring_contents(t)
                == scan_ring_spec(
                old(self).ring_contents(t),
                old(self).ring_cap_at(t),
                batch_fold(old(self).keys@[t], batch@, elapsed_us),
                batch_has_code(batch@, old(self).keys@[t].scan_code),
                window,
            ) by {
                assert(self.ring_contents(t) == ring_model(self.rings@[t]));
            }
        }
    }

    /// Consumes every keypress in keys (calls the consume on every key).
    pub fn just_pressed_consume(&mut self)
        ensures
            final(self).keys@.len() == old(self).keys@.len(),
            forall|i: int|
                0 <= i < old(self).keys@.len() ==> #[trigger] final(self).keys@[i] == (KeyDelta {
                    just_pressed: false,
                    ..old(self).keys@[i]
                }),
            final(self).scan_delay_ns == old(self).scan_delay_ns,
            final(self).deltas_in_average == old(self).deltas_in_average,
            final(self).exit == old(self).exit,
            final(self).idle == old(self).idle,
            final(self).mat_keys == old(self).mat_keys,
            forall|i: int|
                0 <= i < old(self).rings_len() ==> #[trigger] final(self).ring_contents(i) == old(
                    self,
                ).ring_contents(i) && final(self).ring_cap_at(i) == old(self).ring_cap_at(i),
            final(self).rings_len() == old(self).rings_len(),
            old(self).wf() ==> final(self).wf(),
    {
        let n = self.keys.len();
        let mut i: usize = 0;
        while i < n
            invariant
                i <= n,
                n == self.keys@.len(),
                n == old(self).keys@.len(),
                self.rings@ == old(self).rings@,
                self.scan_delay_ns == old(self).scan_delay_ns,
                self.deltas_in_average == old(self).deltas_in_average,
                self.exit == old(self).exit,
                self.idle == old(self).idle,
                self.mat_keys == old(self).mat_keys,
                forall|t: int| i <= t < n ==> self.keys@[t] == old(self).keys@[t],
                forall|t: int|
                    0 <= t < i ==> #[trigger] self.keys@[t] == (KeyDelta {
                        just_pressed: false,
                        ..old(self).keys@[t]
                    }),
            decreases n - i,
        {
            let kref = vec_index_mut(&mut self.keys, i);
            kref.just_pressed_consume();
            i = i + 1;
        }
        proof {
            if old(self).wf() {
                assert forall|t: int| 0 <= t < self.keys@.len() implies ring_ok(
                    #[trigger] self.ring_contents(t),
                    self.ring_cap_at(t),
                ) by {
                    assert(self.rings@[t] == old(self).rings@[t]);
                    assert(ring_ok(old(self).ring_contents(t), old(self).ring_cap_at(t)));
                }
                assert forall|t: int| 0 <= t < self.keys@.len() implies matrix_has_id(
                    self.mat_keys,
                    (#[trigger] self.keys@[t]).key,
                ) by {
                    assert(self.keys@[t].key == old(self).keys@[t].key);
                    assert(matrix_has_id(old(self).mat_keys, old(self).keys@[t].key));
                }
            }
            assert forall|t: int| 0 <= t < self.rings_len() implies #[trigger] self.ring_contents(
                t,
            ) == old(self).ring_contents(t) && self.ring_cap_at(t) == old(self).ring_cap_at(
                t,
            ) by {
                assert(self.rings@[t] == old(self).rings@[t]);
            }
        }
    }

    /// Get all keys that are pressed down even slightly.
    pub fn get_pressed_keys(&self) -> (r: Vec<KeyDelta>)
        ensures
            r@ == self.keys@.filter(pressed_pred()),
            forall|j: int| 0 <= j < r@.len() ==> self.keys@.contains(#[trigger] r@[j]),
    {
        let n = self.keys.len();
        let mut out: Vec<KeyDelta> = Vec::new();
        proof {
            assert(self.keys@.take(0) =~= Seq::<KeyDelta>::empty());
            assert(self.keys@.take(0).filter(pressed_pred()) =~= Seq::<KeyDelta>::empty());
        }
        let mut i: usize = 0;
        while i < n
            invariant
                i <= n,
                n == self.keys@.len(),
                out@ == self.keys@.take(i as int).filter(pressed_pred()),
                forall|j: int| 0 <= j < out@.len() ==> self.keys@.contains(#[trigger] out@[j]),
            decreases n - i,
        {
            let k = self.keys[i];
            proof {
                reveal_with_fuel(Seq::<KeyDelta>::filter, 1);
                assert(self.keys@.take(i as int + 1).drop_last() =~= self.keys@.take(i as int));
                assert(self.keys@.take(i as int + 1).last() == self.keys@[i as int]);
                assert(pressed_pred()(self.keys@[i as int]) == (self.keys@[i as int].distance
                    > 0));
            }
            if k.distance > 0 {
                out.push(k);
            }
            i = i + 1;
        }
        proof {
            assert(self.keys@.take(n as int) =~= self.keys@);
        }
        out
    }

    /// Get all keys that are pressed down with their associated matrix key.
    pub fn get_pressed_keys_mat_keys(&self) -> (r: Vec<(KeyDelta, Key)>)
        requires
            self.wf(),
        ensures
            r@.len() == self.keys@.filter(pressed_pred()).len(),
            forall|j: int|
                0 <= j < r@.len() ==> #[trigger] r@[j].0 == self.keys@.filter(pressed_pred())[j]
                    && r@[j].1 == first_key_with_id(self.mat_keys.keys@, r@[j].0.key),
    {
        let pressed = self.get_pressed_keys();
        let n = pressed.len();
        let mut out: Vec<(KeyDelta, Key)> = Vec::new();
        let mut i: usize = 0;
        while i < n
            invariant
                i <= n,
                self.wf(),
                n == pressed@.len(),
                pressed@ == self.keys@.filter(pressed_pred()),
                forall|j: int|
                    0 <= j < pressed@.len() ==> self.keys@.contains(#[trigger] pressed@[j]),
                out@.len() == i,
                forall|j: int|
                    0 <= j < i ==> #[trigger] out@[j].0 == pressed@[j] && out@[j].1
                        == first_key_with_id(self.mat_keys.keys@, pressed@[j].key),
            decreases n - i,
        {
            let k = pressed[i];
            proof {
                assert(self.keys@.contains(pressed@[i as int]));
                let w = choose|w: int|
                    0 <= w < self.keys@.len() && self.keys@[w] == pressed@[i as int];
                assert(matrix_has_id(self.mat_keys, self.keys@[w].key));
            }
            let mat_key = find_matrix_key(&self.mat_keys, k.key);
            out.push((k, mat_key));
            i = i + 1;
        }
        out
    }
}

/// The first matrix key with the given identity; the identity must be
/// present (a missing key is a programming error, caught before the search).
fn find_matrix_key(m: &KeyboardMatrix, id: (u8, u8)) -> (r: Key)
    requires
        matrix_has_id(*m, id),
    ensures
        r == first_key_with_id(m.keys@, id),
{
    let n = m.keys.len();
    proof {
        assert(m.keys@.skip(0) =~= m.keys@);
    }
    let mut i: usize = 0;
    loop
        invariant
            i < n,
            n == m.keys@.len(),
            matrix_has_id(*m, id),
            first_key_with_id(m.keys@, id) == first_key_with_id(m.keys@.skip(i as int), id),
            forall|t: int| 0 <= t < i ==> (#[trigger] m.keys@[t]).key != id,
        decreases n - i,
    {
        let k = m.keys[i];
        proof {
            assert(m.keys@.skip(i as int)[0] == m.keys@[i as int]);
            assert(m.keys@.skip(i as int).drop_first() =~= m.keys@.skip(i as int + 1));
        }
        if k.key.0 == id.0 && k.key.1 == id.1 {
            return k;
        }
        proof {
            if i + 1 == n {
                let w = choose|w: int| 0 <= w < m.keys@.len() && (#[trigger] m.keys@[w]).key == id;
                assert(m.keys@[w].key != id);
                assert(false);
            }
        }
        i = i + 1;
    }
}

} // verus!
