//! The timed rolling-animation state machine.
//!
//! Positions and speeds use fixed-point thousandths (a position of 1500
//! milli-units is halfway past index 1); durations are milliseconds. The
//! transition `update` is a pure function of the state and an injected time
//! delta, so the machine can be driven and tested without a clock or a
//! display. Randomness enters only at `start`, which shuffles the candidate
//! list; the deceleration is deterministic, and the landing index applied to
//! the shuffled list is the outcome.

use vstd::prelude::*;
use vstd::arithmetic::div_mod::{
    lemma_div_is_ordered, lemma_fundamental_div_mod, lemma_mod_bound, lemma_mod_multiples_vanish,
};
use vstd::arithmetic::mul::lemma_mul_upper_bound;
use vstd::seq_lib::to_multiset_len;
use crate::rng::shuffle_names;

verus! {

/// Lower clamp of the scroll speed, in milli-items per second.
pub const MIN_SPEED_MILLI: u64 = 30000;

/// Upper clamp of the scroll speed, in milli-items per second.
pub const MAX_SPEED_MILLI: u64 = 80000;

/// Scroll speed of a machine that has not been started yet.
pub const DEFAULT_SPEED_MILLI: u64 = 20000;

/// Length of the deceleration phase, in milliseconds.
pub const SLOWDOWN_DURATION_MS: u64 = 3000;

/// Hard bound on the candidate list length, so that fixed-point positions
/// cannot overflow.
pub const MAX_CANDIDATES: usize = 1000000;

/// The phases of one animation run.
#[derive(Debug, Clone, Copy, PartialEq, Eq, Structural)]
pub enum AnimationPhase {
    Idle,
    Rolling,
    SlowingDown,
    Stopped,
}

/// The rolling-wheel animation state.
#[derive(Debug)]
pub struct AnimationState {
    pub phase: AnimationPhase,
    /// Fixed for the lifetime of one animation run.
    pub candidates: Vec<String>,
    /// Current centre position, in milli-items, always below
    /// `candidates.len() * 1000`.
    pub scroll_position_milli: u64,
    /// Current speed, in milli-items per second.
    pub scroll_speed_milli: u64,
    /// Set exactly once, at the transition to `Stopped`; cleared only by a
    /// fresh `start`.
    pub final_result: Option<String>,
    /// Time spent decelerating so far, in milliseconds.
    pub slowdown_elapsed_ms: u64,
    /// Total length of the deceleration, in milliseconds.
    pub slowdown_duration_ms: u64,
    /// Speed at the moment the stop was requested.
    pub initial_speed_milli: u64,
}

/// The speed a run starts with: three revolutions per second — 3000
/// milli-items per second for each candidate — so the pacing is perceptually
/// constant, clamped to the fixed band.
pub open spec fn spec_clamped_speed(n: nat) -> u64 {
    let calc = n * 3000;
    if calc < MIN_SPEED_MILLI as nat {
        MIN_SPEED_MILLI
    } else if calc > MAX_SPEED_MILLI as nat {
        MAX_SPEED_MILLI
    } else {
        calc as u64
    }
}

/// Position after moving at `speed` for `dt` milliseconds, wrapped modulo the
/// list length (`n` items of 1000 milli-units each).
pub open spec fn spec_advance(pos: u64, speed: u64, dt: u64, n: int) -> u64
    recommends
        n > 0,
{
    (((pos + speed * dt / 1000) % (n * 1000)) as u64)
}

/// Ease-out-cubic deceleration: with progress `p = elapsed / duration`, the
/// speed is `initial * (1 - p)^3`, computed in thousandths.
pub open spec fn spec_eased_speed(initial: u64, elapsed: u64, duration: u64) -> u64
    recommends
        0 < duration,
        elapsed < duration,
{
    let q = 1000 - (elapsed as int) * 1000 / (duration as int);
    ((initial * q * q * q / 1000000000) as u64)
}

/// The index the wheel lands on: the nearest whole index to the current
/// position, wrapped modulo the candidate count.
pub open spec fn spec_landing_index(s: AnimationState) -> int {
    ((s.scroll_position_milli + 500) / 1000) % (s.candidates@.len() as int)
}

/// The complete transition law of one `update(dt)` tick.
pub open spec fn spec_step(s: AnimationState, dt_ms: u64) -> AnimationState {
    let n = s.candidates@.len() as int;
    if n == 0 {
        s
    } else {
        match s.phase {
            AnimationPhase::Idle => s,
            AnimationPhase::Stopped => s,
            AnimationPhase::Rolling => AnimationState {
                scroll_position_milli: spec_advance(
                    s.scroll_position_milli,
                    s.scroll_speed_milli,
                    dt_ms,
                    n,
                ),
                ..s
            },
            AnimationPhase::SlowingDown => {
                if s.slowdown_elapsed_ms + dt_ms >= s.slowdown_duration_ms {
                    let idx = spec_landing_index(s);
                    AnimationState {
                        phase: AnimationPhase::Stopped,
                        scroll_position_milli: (idx * 1000) as u64,
                        scroll_speed_milli: 0,
                        final_result: Some(s.candidates@[idx]),
                        slowdown_elapsed_ms: 0,
                        ..s
                    }
                } else {
                    let e = (s.slowdown_elapsed_ms + dt_ms) as u64;
                    let sp = spec_eased_speed(s.initial_speed_milli, e, s.slowdown_duration_ms);
                    AnimationState {
                        scroll_speed_milli: sp,
                        scroll_position_milli: spec_advance(s.scroll_position_milli, sp, dt_ms, n),
                        slowdown_elapsed_ms: e,
                        ..s
                    }
                }
            },
        }
    }
}


/// A machine in its initial configuration.
pub open spec fn spec_is_initial(s: AnimationState) -> bool {
    &&& s.phase is Idle
    &&& s.candidates@.len() == 0
    &&& s.scroll_position_milli == 0
    &&& s.scroll_speed_milli == DEFAULT_SPEED_MILLI
    &&& s.initial_speed_milli == DEFAULT_SPEED_MILLI
    &&& s.final_result is None
    &&& s.slowdown_elapsed_ms == 0
    &&& s.slowdown_duration_ms == SLOWDOWN_DURATION_MS
}

/// A machine freshly started on a shuffle of `names`: rolling from position
/// zero at the clamped speed, with no result committed yet.
pub open spec fn spec_started(s: AnimationState, names: Seq<String>) -> bool {
    &&& s.phase is Rolling
    &&& s.candidates@.to_multiset() == names.to_multiset()
    &&& s.candidates@.len() == names.len()
    &&& s.scroll_position_milli == 0
    &&& s.scroll_speed_milli == spec_clamped_speed(names.len())
    &&& s.initial_speed_milli == spec_clamped_speed(names.len())
    &&& s.final_result is None
    &&& s.slowdown_elapsed_ms == 0
    &&& s.slowdown_duration_ms == SLOWDOWN_DURATION_MS
}

/// The state after a stop request: a rolling machine enters deceleration,
/// any other is untouched.
pub open spec fn spec_stop_requested(s: AnimationState) -> AnimationState {
    if s.phase is Rolling {
        AnimationState {
            phase: AnimationPhase::SlowingDown,
            initial_speed_milli: s.scroll_speed_milli,
            slowdown_elapsed_ms: 0,
            ..s
        }
    } else {
        s
    }
}

/// Moves `pos` by `speed` during `dt` milliseconds, wrapping modulo the list
/// length.
fn advance_position(pos: u64, speed: u64, dt: u64, n: usize) -> (r: u64)
    requires
        0 < n <= MAX_CANDIDATES,
        speed <= MAX_SPEED_MILLI,
        pos < n * 1000,
    ensures
        r == spec_advance(pos, speed, dt, n as int),
        r < n * 1000,
{
    proof {
        lemma_mul_upper_bound(speed as int, MAX_SPEED_MILLI as int, dt as int, u64::MAX as int);
        lemma_div_is_ordered(
            speed as int * dt as int,
            MAX_SPEED_MILLI as int * u64::MAX as int,
            1000,
        );
    }
    let delta: u128 = (speed as u128) * (dt as u128) / 1000;
    let modulus: u128 = (n as u128) * 1000;
    let r128: u128 = ((pos as u128) + delta) % modulus;
    proof {
        lemma_mod_bound((pos + speed * dt / 1000) as int, n as int * 1000);
    }
    r128 as u64
}

impl AnimationState {
    /// Structural soundness of a state: the position lies inside the wheel,
    /// speeds are inside the clamp band, and the deceleration bookkeeping is
    /// consistent.
    pub open spec fn wf(self) -> bool {
        &&& self.candidates@.len() <= MAX_CANDIDATES as nat
        &&& self.scroll_speed_milli <= MAX_SPEED_MILLI
        &&& self.initial_speed_milli <= MAX_SPEED_MILLI
        &&& self.slowdown_duration_ms == SLOWDOWN_DURATION_MS
        &&& self.slowdown_elapsed_ms < self.slowdown_duration_ms
        &&& (if self.candidates@.len() == 0 {
            self.scroll_position_milli == 0
        } else {
            self.scroll_position_milli < self.candidates@.len() * 1000
        })
    }

    /// Whether the wheel is in motion.
    pub open spec fn spec_is_running(self) -> bool {
        self.phase is Rolling || self.phase is SlowingDown
    }

    /// The whole index nearest to the current position, wrapped; 0 for an
    /// empty list.
    pub open spec fn spec_current_index(self) -> int {
        if self.candidates@.len() == 0 {
            0
        } else {
            spec_landing_index(self)
        }
    }

    /// Starts a run: shuffles the candidates, stores the shuffled order, and
    /// begins rolling at the clamped speed. An empty candidate list is a
    /// no-op.
    pub fn start(&mut self, candidates: Vec<String>)
        requires
            old(self).wf(),
            candidates@.len() <= MAX_CANDIDATES,
        ensures
            final(self).wf(),
            candidates@.len() == 0 ==> *final(self) == *old(self),
            candidates@.len() > 0 ==> spec_started(*final(self), candidates@),
    {
        if candidates.len() == 0 {
            return;
        }
        let ghost orig = candidates@;
        let mut shuffled = candidates;
        shuffle_names(&mut shuffled);
        proof {
            to_multiset_len(shuffled@);
            to_multiset_len(orig);
            assert(shuffled@.len() == orig.len());
        }
        let n = shuffled.len();
        proof {
            assert(n <= MAX_CANDIDATES);
        }
        let calc: u64 = (n as u64) * 3000;
        let speed: u64 = if calc < MIN_SPEED_MILLI {
            MIN_SPEED_MILLI
        } else if calc > MAX_SPEED_MILLI {
            MAX_SPEED_MILLI
        } else {
            calc
        };
        self.candidates = shuffled;
        self.phase = AnimationPhase::Rolling;
        self.scroll_position_milli = 0;
        self.scroll_speed_milli = speed;
        self.initial_speed_milli = speed;
        self.final_result = None;
        self.slowdown_elapsed_ms = 0;
    }

    /// Requests the stop: a rolling wheel enters the deceleration phase,
    /// keeping its position and recording its speed; in any other phase this
    /// is a no-op. It always leads to a committed result, never to an
    /// aborted run.
    pub fn request_stop(&mut self)
        requires
            old(self).wf(),
        ensures
            final(self).wf(),
            *final(self) == spec_stop_requested(*old(self)),
    {
        if matches!(self.phase, AnimationPhase::Rolling) {
            self.phase = AnimationPhase::SlowingDown;
            self.initial_speed_milli = self.scroll_speed_milli;
            self.slowdown_elapsed_ms = 0;
        }
    }

    /// One tick of the machine: advances the state by `dt_ms` milliseconds
    /// exactly as the transition law `spec_step` says, and reports whether
    /// the wheel moved.
    pub fn update(&mut self, dt_ms: u64) -> (r: bool)
        requires
            old(self).wf(),
        ensures
            final(self).wf(),
            *final(self) == spec_step(*old(self), dt_ms),
            r == (old(self).candidates@.len() > 0 && old(self).spec_is_running()),
    {
        let n = self.candidates.len();
        if n == 0 {
            return false;
        }
        match self.phase {
            AnimationPhase::Idle => false,
            AnimationPhase::Stopped => false,
            AnimationPhase::Rolling => {
                self.scroll_position_milli = advance_position(
                    self.scroll_position_milli,
                    self.scroll_speed_milli,
                    dt_ms,
                    n,
                );
                true
            },
            AnimationPhase::SlowingDown => {
                if dt_ms >= self.slowdown_duration_ms - self.slowdown_elapsed_ms {
                    let len64: u64 = n as u64;
                    let idx64: u64 = (self.scroll_position_milli + 500) / 1000 % len64;
                    proof {
                        lemma_mod_bound((self.scroll_position_milli + 500) as int / 1000, len64 as int);
                    }
                    let idx: usize = idx64 as usize;
                    self.scroll_position_milli = idx64 * 1000;
                    self.phase = AnimationPhase::Stopped;
                    self.final_result = Some(self.candidates[idx].clone());
                    self.scroll_speed_milli = 0;
                    self.slowdown_elapsed_ms = 0;
                    true
                } else {
                    let e: u64 = self.slowdown_elapsed_ms + dt_ms;
                    let q: u64 = 1000 - e * 1000 / self.slowdown_duration_ms;
                    proof {
                        lemma_mul_upper_bound(self.initial_speed_milli as int, MAX_SPEED_MILLI as int, q as int, 1000);
                        lemma_mul_upper_bound(
                            self.initial_speed_milli as int * q as int,
                            MAX_SPEED_MILLI as int * 1000,
                            q as int,
                            1000,
                        );
                        lemma_mul_upper_bound(
                            self.initial_speed_milli as int * q as int * q as int,
                            MAX_SPEED_MILLI as int * 1000 * 1000,
                            q as int,
                            1000,
                        );
                        lemma_div_is_ordered(
                            self.initial_speed_milli as int * q as int * q as int * q as int,
                            MAX_SPEED_MILLI as int * 1000 * 1000 * 1000,
                            1000000000,
                        );
                    }
                    let sp: u64 = self.initial_speed_milli * q * q * q / 1000000000;
                    self.scroll_speed_milli = sp;
                    self.slowdown_elapsed_ms = e;
                    self.scroll_position_milli = advance_position(
                        self.scroll_position_milli,
                        sp,
                        dt_ms,
                        n,
                    );
                    true
                }
            },
        }
    }

    /// The whole index nearest to the current position.
    pub fn current_index(&self) -> (r: usize)
        requires
            self.wf(),
        ensures
            r == self.spec_current_index(),
            self.candidates@.len() > 0 ==> r < self.candidates@.len(),
    {
        if self.candidates.len() == 0 {
            return 0;
        }
        let len64: u64 = self.candidates.len() as u64;
        let idx64: u64 = (self.scroll_position_milli + 500) / 1000 % len64;
        proof {
            lemma_mod_bound((self.scroll_position_milli + 500) as int / 1000, len64 as int);
        }
        idx64 as usize
    }

    /// The name at the wheel's centre, `None` for an empty list.
    pub fn current_name(&self) -> (r: Option<String>)
        requires
            self.wf(),
        ensures
            self.candidates@.len() == 0 ==> r is None,
            self.candidates@.len() > 0 ==> r == Some(self.candidates@[self.spec_current_index()]),
    {
        if self.candidates.len() == 0 {
            return None;
        }
        let i = self.current_index();
        Some(self.candidates[i].clone())
    }

    /// The name `offset` places away from the centre (negative offsets look
    /// upwards), wrapped around the true candidate count.
    pub fn get_name_at_offset(&self, offset: i32) -> (r: Option<String>)
        requires
            self.wf(),
        ensures
            self.candidates@.len() == 0 ==> r is None,
            self.candidates@.len() > 0 ==> r == Some(
                self.candidates@[
                    (self.spec_current_index() + offset) % (self.candidates@.len() as int)
                ],
            ),
    {
        if self.candidates.len() == 0 {
            return None;
        }
        let len64: u64 = self.candidates.len() as u64;
        let base: u64 = self.current_index() as u64;
        // A positive multiple of the length, at least 2^31, so that adding
        // the offset cannot go negative and the wrap is unchanged.
        let quot: u64 = 0x8000_0000u64 / len64;
        proof {
            lemma_fundamental_div_mod(0x8000_0000u64 as int, len64 as int);
            lemma_mod_bound(0x8000_0000u64 as int, len64 as int);
            assert((quot as int + 1) * (len64 as int)
                == (len64 as int) * (quot as int) + len64 as int) by (nonlinear_arith);
            assert((len64 as int) * (quot as int)
                == (0x8000_0000u64 as int) - ((0x8000_0000u64 as int) % (len64 as int)));
        }
        let shift: u64 = (quot + 1) * len64;
        let sum: i64 = (base as i64) + (shift as i64) + (offset as i64);
        let idx: u64 = (sum as u64) % len64;
        proof {
            let n = len64 as int;
            lemma_mod_bound(sum as int, n);
            lemma_mod_multiples_vanish(
                quot as int + 1,
                base as int + offset as int,
                n,
            );
            assert(shift as int == n * (quot as int + 1)) by (nonlinear_arith)
                requires shift as int == (quot as int + 1) * n;
            assert(sum as int == n * (quot as int + 1) + (base as int + offset as int));
        }
        Some(self.candidates[idx as usize].clone())
    }

    /// The fractional part of the position, in milli-units.
    pub fn get_scroll_fraction(&self) -> (r: u64)
        ensures
            r == self.scroll_position_milli % 1000,
            r < 1000,
    {
        self.scroll_position_milli % 1000
    }

    /// Whether the wheel is in motion.
    pub fn is_running(&self) -> (r: bool)
        ensures
            r == self.spec_is_running(),
    {
        matches!(self.phase, AnimationPhase::Rolling | AnimationPhase::SlowingDown)
    }

    /// Puts the machine back into its initial state.
    pub fn reset(&mut self)
        ensures
            spec_is_initial(*final(self)),
            final(self).wf(),
    {
        *self = Self::default();
    }
}

impl Default for AnimationState {
    fn default() -> (r: Self)
        ensures
            spec_is_initial(r),
            r.wf(),
    {
        AnimationState {
            phase: AnimationPhase::Idle,
            candidates: Vec::new(),
            scroll_position_milli: 0,
            scroll_speed_milli: DEFAULT_SPEED_MILLI,
            final_result: None,
            slowdown_elapsed_ms: 0,
            slowdown_duration_ms: SLOWDOWN_DURATION_MS,
            initial_speed_milli: DEFAULT_SPEED_MILLI,
        }
    }
}

/// Law: a decelerating machine stops exactly when its accumulated elapsed
/// time reaches the slowdown duration — never earlier, never later — and the
/// committed result is one of the true candidates, at the landing index.
pub proof fn lemma_slowdown_stops_on_time(s: AnimationState, dt_ms: u64)
    requires
        s.wf(),
        s.phase is SlowingDown,
        s.candidates@.len() > 0,
    ensures
        (spec_step(s, dt_ms).phase is Stopped) <==> (s.slowdown_elapsed_ms + dt_ms
            >= s.slowdown_duration_ms),
        s.slowdown_elapsed_ms + dt_ms < s.slowdown_duration_ms ==> spec_step(s, dt_ms).phase
            is SlowingDown && spec_step(s, dt_ms).slowdown_elapsed_ms == s.slowdown_elapsed_ms
            + dt_ms,
        spec_step(s, dt_ms).phase is Stopped ==> {
            &&& 0 <= spec_landing_index(s) < s.candidates@.len()
            &&& spec_step(s, dt_ms).final_result == Some(s.candidates@[spec_landing_index(s)])
        },
{
    lemma_mod_bound((s.scroll_position_milli + 500) as int / 1000, s.candidates@.len() as int);
}


/// One tick preserves well-formedness.
pub proof fn lemma_step_preserves_wf(s: AnimationState, dt_ms: u64)
    requires
        s.wf(),
    ensures
        spec_step(s, dt_ms).wf(),
{
    let n = s.candidates@.len() as int;
    if n > 0 {
        match s.phase {
            AnimationPhase::Rolling => {
                lemma_mod_bound((s.scroll_position_milli + s.scroll_speed_milli * dt_ms / 1000) as int, n * 1000);
            },
            AnimationPhase::SlowingDown => {
                if s.slowdown_elapsed_ms + dt_ms >= s.slowdown_duration_ms {
                    lemma_mod_bound((s.scroll_position_milli + 500) as int / 1000, n);
                } else {
                    let e = (s.slowdown_elapsed_ms + dt_ms) as int;
                    let q = 1000 - e * 1000 / (s.slowdown_duration_ms as int);
                    let initial = s.initial_speed_milli as int;
                    lemma_mod_bound(e * 1000, s.slowdown_duration_ms as int);
                    assert(0 < q <= 1000);
                    lemma_mul_upper_bound(initial, MAX_SPEED_MILLI as int, q, 1000);
                    lemma_mul_upper_bound(initial * q, MAX_SPEED_MILLI as int * 1000, q, 1000);
                    lemma_mul_upper_bound(
                        initial * q * q,
                        MAX_SPEED_MILLI as int * 1000 * 1000,
                        q,
                        1000,
                    );
                    lemma_div_is_ordered(
                        initial * q * q * q,
                        MAX_SPEED_MILLI as int * 1000 * 1000 * 1000,
                        1000000000,
                    );
                    assert(initial * q >= 0 && initial * q * q >= 0 && initial * q * q * q >= 0) by (nonlinear_arith)
                        requires initial >= 0 && q >= 0;
                    let sp = spec_eased_speed(s.initial_speed_milli, (s.slowdown_elapsed_ms + dt_ms) as u64, s.slowdown_duration_ms);
                    assert(sp <= MAX_SPEED_MILLI);
                    lemma_mod_bound((s.scroll_position_milli + sp * dt_ms / 1000) as int, n * 1000);
                }
            },
            _ => {},
        }
    }
}

/// The state after a whole sequence of ticks.
pub open spec fn spec_run(s: AnimationState, dts: Seq<u64>) -> AnimationState
    decreases dts.len(),
{
    if dts.len() == 0 {
        s
    } else {
        spec_run(spec_step(s, dts[0]), dts.skip(1))
    }
}

/// The total time of a sequence of ticks, in milliseconds.
pub open spec fn spec_total_ms(dts: Seq<u64>) -> int
    decreases dts.len(),
{
    if dts.len() == 0 {
        0
    } else {
        dts[0] + spec_total_ms(dts.skip(1))
    }
}

/// A stopped machine is settled: no sequence of ticks changes it.
pub proof fn lemma_stopped_stays(s: AnimationState, dts: Seq<u64>)
    requires
        s.phase is Stopped || s.phase is Idle,
    ensures
        spec_run(s, dts) == s,
    decreases dts.len(),
{
    if dts.len() > 0 {
        lemma_stopped_stays(s, dts.skip(1));
    }
}

/// Law: driven by any tick sequence, a machine that has just been asked to
/// stop reaches `Stopped` exactly when the accumulated time crosses the
/// slowdown duration — with less total time it is still decelerating and no
/// result is committed, with enough it has stopped on one of its candidates
/// — never earlier, never indefinitely later.
pub proof fn lemma_slowdown_run(s: AnimationState, dts: Seq<u64>)
    requires
        s.wf(),
        s.phase is SlowingDown,
        s.candidates@.len() > 0,
    ensures
        s.slowdown_elapsed_ms + spec_total_ms(dts) < s.slowdown_duration_ms ==> {
            let t = spec_run(s, dts);
            &&& t.phase is SlowingDown
            &&& t.slowdown_elapsed_ms == s.slowdown_elapsed_ms + spec_total_ms(dts)
            &&& t.final_result == s.final_result
            &&& t.candidates == s.candidates
            &&& t.wf()
        },
        s.slowdown_elapsed_ms + spec_total_ms(dts) >= s.slowdown_duration_ms ==> {
            let t = spec_run(s, dts);
            &&& t.phase is Stopped
            &&& (exists|i: int|
                0 <= i < s.candidates@.len() && t.final_result == Some(s.candidates@[i]))
            &&& t.candidates == s.candidates
        },
    decreases dts.len(),
{
    if dts.len() > 0 {
        let next = spec_step(s, dts[0]);
        lemma_slowdown_stops_on_time(s, dts[0]);
        if s.slowdown_elapsed_ms + dts[0] >= s.slowdown_duration_ms {
            lemma_stopped_stays(next, dts.skip(1));
            assert(spec_total_ms(dts) >= dts[0]) by {
                lemma_total_ms_nonneg(dts.skip(1));
            }
        } else {
            lemma_step_preserves_wf(s, dts[0]);
            lemma_slowdown_run(next, dts.skip(1));
        }
    }
}

/// Tick totals are never negative.
proof fn lemma_total_ms_nonneg(dts: Seq<u64>)
    ensures
        spec_total_ms(dts) >= 0,
    decreases dts.len(),
{
    if dts.len() > 0 {
        lemma_total_ms_nonneg(dts.skip(1));
    }
}

/// Law: a rolling machine never commits a result on its own; only the
/// deceleration that follows a stop request can reach `Stopped`.
pub proof fn lemma_rolling_keeps_rolling(s: AnimationState, dt_ms: u64)
    requires
        s.wf(),
        s.phase is Rolling,
        s.candidates@.len() > 0,
    ensures
        spec_step(s, dt_ms).phase is Rolling,
        spec_step(s, dt_ms).final_result == s.final_result,
        spec_step(s, dt_ms).candidates == s.candidates,
{
}

} // verus!
