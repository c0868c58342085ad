use vstd::prelude::*;
use vstd::arithmetic::div_mod::{
    lemma_div_is_ordered,
    lemma_div_by_multiple,
    lemma_div_plus_one,
    lemma_fundamental_div_mod,
    lemma_hoist_over_denominator,
    lemma_mod_pos_bound,
};
use vstd::arithmetic::mul::lemma_mul_inequality;
use crate::pan::{PanPosition, PAN_UNIT};

verus! {

/// The point reached after `k` of `window` equal steps on the way from
/// `start` to `target`, rounded toward `start`.
pub open spec fn ramp_point(start: int, target: int, window: nat, k: nat) -> int {
    if target >= start {
        start + (target - start) * k / (window as int)
    } else {
        start - (start - target) * k / (window as int)
    }
}

/// The abstract state of a ramp.
pub struct RampState {
    /// Number of samples a full ramp takes.
    pub window: nat,
    /// Where the ramp under way began.
    pub start: int,
    /// The position now.
    pub current: int,
    /// Where the ramp under way ends.
    pub target: int,
    /// Samples left until the ramp reaches `target`; zero when idle.
    pub remaining: nat,
}

impl RampState {
    pub open spec fn wf(self) -> bool {
        &&& self.window >= 1
        &&& self.remaining <= self.window
        &&& 0 <= self.start <= PAN_UNIT
        &&& 0 <= self.target <= PAN_UNIT
        &&& self.current == ramp_point(
            self.start,
            self.target,
            self.window,
            (self.window - self.remaining) as nat,
        )
    }

    /// No ramp is under way.
    pub open spec fn idle(self) -> bool {
        self.remaining == 0
    }

    /// The state after one sample: a ramp under way advances by one step, an
    /// idle state stays as it is.
    pub open spec fn stepped(self) -> RampState {
        if self.remaining > 0 {
            let remaining = (self.remaining - 1) as nat;
            RampState {
                remaining: remaining,
                current: ramp_point(
                    self.start,
                    self.target,
                    self.window,
                    (self.window - remaining) as nat,
                ),
                ..self
            }
        } else {
            self
        }
    }

    /// The state after the target `t` is seen: a new target starts a fresh
    /// ramp of a full window from the position now; the same target changes
    /// nothing.
    pub open spec fn retargeted(self, t: int) -> RampState {
        if t != self.target {
            RampState { start: self.current, target: t, remaining: self.window, ..self }
        } else {
            self
        }
    }
}

/// The state after `k` samples.
pub open spec fn advanced(s: RampState, k: nat) -> RampState
    decreases k,
{
    if k == 0 {
        s
    } else {
        advanced(s, (k - 1) as nat).stepped()
    }
}

/// A ramp starts at its start, ends at its target, and stays between the two.
pub proof fn lemma_ramp_point_bounds(start: int, target: int, window: nat, k: nat)
    requires
        window >= 1,
        k <= window,
    ensures
        ramp_point(start, target, window, 0) == start,
        ramp_point(start, target, window, window) == target,
        target >= start ==> start <= ramp_point(start, target, window, k) <= target,
        target < start ==> target <= ramp_point(start, target, window, k) <= start,
{
    let w = window as int;
    let d = if target >= start { target - start } else { start - target };
    assert(d * 0 == 0) by (nonlinear_arith);
    assert(0int / w == 0);
    lemma_div_by_multiple(d, w);
    lemma_mul_inequality(k as int, w, d);
    assert(0 <= d * (k as int)) by (nonlinear_arith)
        requires
            0 <= d,
            0 <= k,
    ;
    assert(d * (k as int) == (k as int) * d) by (nonlinear_arith);
    assert(d * w == w * d) by (nonlinear_arith);
    lemma_div_is_ordered(0, d * (k as int), w);
    lemma_div_is_ordered(d * (k as int), d * w, w);
}

/// Each step of a ramp moves toward the target, never away from it; where
/// the distance to cover is at least one unit per step, every step moves.
pub proof fn lemma_ramp_step_toward_target(start: int, target: int, window: nat, k: nat)
    requires
        window >= 1,
        k < window,
    ensures
        target >= start ==> ramp_point(start, target, window, k) <= ramp_point(
            start,
            target,
            window,
            k + 1,
        ),
        target < start ==> ramp_point(start, target, window, k + 1) <= ramp_point(
            start,
            target,
            window,
            k,
        ),
        target - start >= window ==> ramp_point(start, target, window, k) < ramp_point(
            start,
            target,
            window,
            k + 1,
        ),
        start - target >= window ==> ramp_point(start, target, window, k + 1) < ramp_point(
            start,
            target,
            window,
            k,
        ),
{
    let w = window as int;
    let d = if target >= start { target - start } else { start - target };
    let a = d * (k as int);
    let b = d * ((k + 1) as int);
    assert(d * ((k + 1) as int) == d * (k as int) + d) by (nonlinear_arith);
    lemma_div_is_ordered(a, b, w);
    if d >= w {
        lemma_div_is_ordered(w + a, b, w);
        lemma_div_plus_one(a, w);
    }
}

/// No step of a ramp covers more than the whole distance divided by the
/// window, rounded up: the step size of the ramp.
pub proof fn lemma_ramp_step_bounded(start: int, target: int, window: nat, k: nat)
    requires
        window >= 1,
        k < window,
    ensures
        target >= start ==> ramp_point(start, target, window, k + 1) - ramp_point(
            start,
            target,
            window,
            k,
        ) <= (target - start + window - 1) / (window as int),
        target < start ==> ramp_point(start, target, window, k) - ramp_point(
            start,
            target,
            window,
            k + 1,
        ) <= (start - target + window - 1) / (window as int),
{
    let w = window as int;
    let d = if target >= start { target - start } else { start - target };
    let a = d * (k as int);
    assert(0 <= d * (k as int)) by (nonlinear_arith)
        requires
            0 <= d,
            0 <= k,
    ;
    assert(d * ((k + 1) as int) == d * (k as int) + d) by (nonlinear_arith);
    lemma_fundamental_div_mod(a, w);
    lemma_mod_pos_bound(a, w);
    let q = a / w;
    let m = a % w;
    assert(a + d == (m + d) + q * w) by (nonlinear_arith)
        requires
            a == w * q + m,
    ;
    lemma_hoist_over_denominator(m + d, q, window);
    lemma_div_is_ordered(m + d, d + w - 1, w);
}

/// Driving a well-formed state for `k` samples keeps it well-formed, counts
/// down the remaining samples (stopping at zero), and moves the position
/// along the same ramp.
pub proof fn lemma_advanced(s: RampState, k: nat)
    requires
        s.wf(),
    ensures
        advanced(s, k).wf(),
        advanced(s, k).window == s.window,
        advanced(s, k).start == s.start,
        advanced(s, k).target == s.target,
        advanced(s, k).remaining == (if k <= s.remaining {
            s.remaining - k
        } else {
            0
        }),
    decreases k,
{
    if k > 0 {
        lemma_advanced(s, (k - 1) as nat);
    }
}

/// Seeing a target in the pan range keeps a state well-formed.
pub proof fn lemma_retargeted_wf(s: RampState, t: int)
    requires
        s.wf(),
        0 <= t <= PAN_UNIT,
    ensures
        s.retargeted(t).wf(),
        0 <= s.current <= PAN_UNIT,
{
    lemma_ramp_point_bounds(s.start, s.target, s.window, (s.window - s.remaining) as nat);
    lemma_ramp_point_bounds(s.current, t, s.window, 0);
}

/// Ramp convergence: whatever the state and the new target, after one full
/// window of samples the position equals the target and the ramp is idle,
/// and a further sample changes nothing.
pub proof fn lemma_ramp_converges(s: RampState, t: int)
    requires
        s.wf(),
        0 <= t <= PAN_UNIT,
    ensures
        advanced(s.retargeted(t), s.window).current == t,
        advanced(s.retargeted(t), s.window).idle(),
        advanced(s.retargeted(t), s.window + 1) == advanced(s.retargeted(t), s.window),
{
    let r = s.retargeted(t);
    lemma_retargeted_wf(s, t);
    lemma_advanced(r, s.window);
    let e = advanced(r, s.window);
    lemma_ramp_point_bounds(e.start, e.target, e.window, e.window);
}

/// A target that changes, even in the middle of a ramp, starts a ramp that
/// completes in exactly one window of samples from that point, wherever the
/// position stood.
pub proof fn lemma_retarget_completes_in_window(s: RampState, t: int)
    requires
        s.wf(),
        0 <= t <= PAN_UNIT,
        t != s.target,
    ensures
        forall|k: nat| k < s.window ==> !(#[trigger] advanced(s.retargeted(t), k)).idle(),
        advanced(s.retargeted(t), s.window).idle(),
        advanced(s.retargeted(t), s.window).current == t,
{
    let r = s.retargeted(t);
    lemma_retargeted_wf(s, t);
    assert forall|k: nat| k < s.window implies !(#[trigger] advanced(r, k)).idle() by {
        lemma_advanced(r, k);
    }
    lemma_ramp_converges(s, t);
}

/// Number of samples in the 50 ms smoothing window at `sample_rate` samples
/// per second; at least one.
pub open spec fn window_of_rate(sample_rate: u32) -> u32 {
    if sample_rate / 20 >= 1 {
        sample_rate / 20
    } else {
        1
    }
}

/// The smoothing window, in samples, for a stream of `sample_rate` samples
/// per second.
pub fn window_for_sample_rate(sample_rate: u32) -> (r: u32)
    ensures
        r == window_of_rate(sample_rate),
        r >= 1,
{
    let n = sample_rate / 20;
    if n >= 1 {
        n
    } else {
        1
    }
}

/// The point after `k` of `window` steps from `start` toward `target`.
fn ramp_at(start: u32, target: u32, window: u32, k: u32) -> (r: u32)
    requires
        start <= PAN_UNIT,
        target <= PAN_UNIT,
        window >= 1,
        k <= window,
    ensures
        r == ramp_point(start as int, target as int, window as nat, k as nat),
        r <= PAN_UNIT,
{
    proof {
        lemma_ramp_point_bounds(start as int, target as int, window as nat, k as nat);
    }
    if target >= start {
        let d: u64 = (target - start) as u64;
        assert(d * (k as u64) <= 0x1000000 * 0x1_0000_0000) by (nonlinear_arith)
            requires
                d <= 0x1000000,
                k <= 0xffff_ffff,
        ;
        let off: u64 = d * (k as u64) / (window as u64);
        start + off as u32
    } else {
        let d: u64 = (start - target) as u64;
        assert(d * (k as u64) <= 0x1000000 * 0x1_0000_0000) by (nonlinear_arith)
            requires
                d <= 0x1000000,
                k <= 0xffff_ffff,
        ;
        let off: u64 = d * (k as u64) / (window as u64);
        start - off as u32
    }
}

/// A per-sample ramp that moves a pan position toward its latest target
/// over a fixed window of samples.
pub struct Smoother {
    window: u32,
    start: u32,
    current: u32,
    target: u32,
    remaining: u32,
}

impl View for Smoother {
    type V = RampState;

    closed spec fn view(&self) -> RampState {
        RampState {
            window: self.window as nat,
            start: self.start as int,
            current: self.current as int,
            target: self.target as int,
            remaining: self.remaining as nat,
        }
    }
}

impl Smoother {
    pub closed spec fn wf(&self) -> bool {
        &&& self@.wf()
        &&& self.current <= PAN_UNIT
    }

    /// An idle smoother resting at `initial`, whose ramps take `window`
    /// samples.
    pub fn new(window: u32, initial: PanPosition) -> (r: Smoother)
        requires
            window >= 1,
            initial.valid(),
        ensures
            r.wf(),
            r@ == (RampState {
                window: window as nat,
                start: initial.raw as int,
                current: initial.raw as int,
                target: initial.raw as int,
                remaining: 0,
            }),
    {
        proof {
            lemma_ramp_point_bounds(initial.raw as int, initial.raw as int, window as nat, 0);
        }
        Smoother {
            window,
            start: initial.raw,
            current: initial.raw,
            target: initial.raw,
            remaining: 0,
        }
    }

    /// Takes in the target seen this block: a target other than the one
    /// last seen starts a fresh ramp of a full window from the position now.
    pub fn set_target(&mut self, target: PanPosition)
        requires
            old(self).wf(),
            target.valid(),
        ensures
            final(self).wf(),
            final(self)@ == old(self)@.retargeted(target.raw as int),
    {
        proof {
            lemma_retargeted_wf(self@, target.raw as int);
        }
        if target.raw != self.target {
            self.start = self.current;
            self.target = target.raw;
            self.remaining = self.window;
        }
    }

    /// Advances by one sample and returns the position for that sample.
    pub fn step(&mut self) -> (r: PanPosition)
        requires
            old(self).wf(),
        ensures
            final(self).wf(),
            final(self)@ == old(self)@.stepped(),
            r.raw == final(self)@.current,
            r.valid(),
    {
        if self.remaining > 0 {
            self.remaining = self.remaining - 1;
            self.current = ramp_at(self.start, self.target, self.window, self.window - self.remaining);
        }
        PanPosition { raw: self.current }
    }

    /// The position now.
    pub fn current(&self) -> (r: PanPosition)
        requires
            self.wf(),
        ensures
            r.raw == self@.current,
            r.valid(),
    {
        PanPosition { raw: self.current }
    }

    /// The target of the ramp under way, or of the last one.
    pub fn target(&self) -> (r: PanPosition)
        requires
            self.wf(),
        ensures
            r.raw == self@.target,
            r.valid(),
    {
        PanPosition { raw: self.target }
    }

    /// Samples left until the ramp under way is done.
    pub fn remaining(&self) -> (r: u32)
        ensures
            r == self@.remaining,
    {
        self.remaining
    }

    /// Number of samples a full ramp takes.
    pub fn window(&self) -> (r: u32)
        ensures
            r == self@.window,
    {
        self.window
    }

    /// A ramp is under way.
    pub fn is_ramping(&self) -> (r: bool)
        ensures
            r == !self@.idle(),
    {
        self.remaining > 0
    }
}

} // verus!
