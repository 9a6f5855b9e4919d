//! The polling primitive: wait until the running signal equals a target
//! value or a deadline elapses.
//!
//! Observations are made at the instants `t0, t0 + i, t0 + 2i, ...` of
//! the device clock, strictly before the deadline; the wait sleeps one
//! interval between observations and returns no later than the deadline
//! plus one interval.

use vstd::prelude::*;
use crate::device::{MAX_SIM_MS, MAX_SPAN_MS, RunPhase, SimDevice, phase_running_at, spec_sync_phase};

verus! {

/// How a wait ended.
#[derive(Clone, Copy, Debug, PartialEq, Eq, Structural)]
pub enum PollOutcome {
    /// An observation strictly before the deadline equalled the target.
    Reached,
    /// The deadline elapsed before any observation equalled the target.
    DeadlineElapsed,
}

/// The part of `[t, limit)` still ahead of `t`: a termination measure
/// for walks along the polling grid.
pub open spec fn span_left(t: int, limit: int) -> int {
    if t < limit {
        limit - t
    } else {
        0
    }
}

/// What polling the running signal at time `t` observes of a device
/// whose running coil is mapped iff `mapped` and whose phase is `p`:
/// `false` whenever the coil is unmapped.
pub open spec fn obs_at(mapped: bool, p: RunPhase, sd: u64, dur: u64, t: u64) -> bool {
    mapped && phase_running_at(p, sd, dur, t)
}

/// The first polling instant `t, t + interval, ...` strictly before
/// `deadline` at which a device with running-coil state `(mapped, p)`
/// observes `target`, if any.
pub open spec fn first_hit(
    mapped: bool,
    p: RunPhase,
    sd: u64,
    dur: u64,
    target: bool,
    t: u64,
    deadline: u64,
    interval: u64,
) -> Option<u64>
    decreases span_left(t as int, deadline as int)
    when 1 <= interval && deadline + 2 * interval <= u64::MAX
{
    if t >= deadline {
        None
    } else if obs_at(mapped, p, sd, dur, t) == target {
        Some(t)
    } else {
        first_hit(mapped, p, sd, dur, target, (t + interval) as u64, deadline, interval)
    }
}

/// The first instant of the grid `t, t + interval, ...` at or after `w`.
pub open spec fn next_sample(t: int, interval: int, w: int) -> int
    decreases span_left(t, w)
    when 1 <= interval
{
    if t >= w {
        t
    } else {
        next_sample(t + interval, interval, w)
    }
}

/// The next sample at or after `w` lies in `[w, w + interval)` when the
/// grid starts at or before `w`, and is `t` itself otherwise.
pub proof fn lemma_next_sample_bounds(t: int, interval: int, w: int)
    requires
        1 <= interval,
    ensures
        t <= next_sample(t, interval, w),
        t < w ==> w <= next_sample(t, interval, w) < w + interval,
        t >= w ==> next_sample(t, interval, w) == t,
    decreases span_left(t, w),
{
    if t < w {
        lemma_next_sample_bounds(t + interval, interval, w);
    }
}

/// Walking the grid to a nearer boundary first and on to a farther one
/// lands where walking straight to the farther one does.
pub proof fn lemma_next_sample_chain(t: int, interval: int, w1: int, w2: int)
    requires
        1 <= interval,
        next_sample(t, interval, w1) <= w2,
    ensures
        next_sample(next_sample(t, interval, w1), interval, w2) == next_sample(t, interval, w2),
    decreases span_left(t, w1),
{
    if t < w1 {
        lemma_next_sample_bounds(t, interval, w1);
        lemma_next_sample_chain(t + interval, interval, w1, w2);
    }
}

/// While every observation in `[t, m)` misses the target, the first hit
/// from `t` equals the first hit from the next sample at or after `m`.
pub proof fn lemma_first_hit_skip(
    mapped: bool,
    p: RunPhase,
    sd: u64,
    dur: u64,
    target: bool,
    t: u64,
    deadline: u64,
    interval: u64,
    m: u64,
)
    requires
        1 <= interval,
        deadline + 2 * interval <= u64::MAX,
        m + interval <= u64::MAX,
        forall|u: u64| t <= u < m ==> obs_at(mapped, p, sd, dur, u) != target,
    ensures
        first_hit(mapped, p, sd, dur, target, t, deadline, interval) == first_hit(
            mapped,
            p,
            sd,
            dur,
            target,
            next_sample(t as int, interval as int, m as int) as u64,
            deadline,
            interval,
        ),
    decreases span_left(t as int, m as int),
{
    if t < m {
        if t >= deadline {
            lemma_next_sample_bounds(t as int, interval as int, m as int);
        } else {
            lemma_first_hit_skip(
                mapped,
                p,
                sd,
                dur,
                target,
                (t + interval) as u64,
                deadline,
                interval,
                m,
            );
        }
    }
}

/// An observation equal to the target strictly before the deadline is
/// the first hit at its own instant.
pub proof fn lemma_first_hit_here(
    mapped: bool,
    p: RunPhase,
    sd: u64,
    dur: u64,
    target: bool,
    t: u64,
    deadline: u64,
    interval: u64,
)
    requires
        1 <= interval,
        deadline + 2 * interval <= u64::MAX,
        t < deadline,
        obs_at(mapped, p, sd, dur, t) == target,
    ensures
        first_hit(mapped, p, sd, dur, target, t, deadline, interval) == Some(t),
{
}

/// Whether the `k`-th polling instant of the grid starting at `t`
/// falls strictly before the deadline and observes the target.
pub open spec fn sample_hits(
    mapped: bool,
    p: RunPhase,
    sd: u64,
    dur: u64,
    target: bool,
    t: u64,
    deadline: u64,
    interval: u64,
    k: nat,
) -> bool {
    t + k * interval < deadline && obs_at(mapped, p, sd, dur, ((t + k * interval) as u64)) == target
}

/// The wait finds a hit exactly when some polling instant
/// `t, t + interval, t + 2 interval, ...` strictly before the deadline
/// observes the target: together with the contract of [`wait_until`],
/// the wait returns `Reached` if and only if an observation yields the
/// target strictly before the deadline.
pub proof fn lemma_first_hit_iff_observed(
    mapped: bool,
    p: RunPhase,
    sd: u64,
    dur: u64,
    target: bool,
    t: u64,
    deadline: u64,
    interval: u64,
)
    requires
        1 <= interval,
        deadline + 2 * interval <= u64::MAX,
    ensures
        first_hit(mapped, p, sd, dur, target, t, deadline, interval) is Some <==> exists|k: nat|
            #[trigger] sample_hits(mapped, p, sd, dur, target, t, deadline, interval, k),
    decreases span_left(t as int, deadline as int),
{
    if t >= deadline {
        assert forall|k: nat| !sample_hits(mapped, p, sd, dur, target, t, deadline, interval, k) by {
            assert(k * interval >= 0) by (nonlinear_arith);
        }
    } else if obs_at(mapped, p, sd, dur, t) == target {
        assert(t + 0 * interval == t);
        assert(sample_hits(mapped, p, sd, dur, target, t, deadline, interval, 0));
    } else {
        let s = (t + interval) as u64;
        lemma_first_hit_iff_observed(mapped, p, sd, dur, target, s, deadline, interval);
        if first_hit(mapped, p, sd, dur, target, t, deadline, interval) is Some {
            let k0 = choose|k: nat|
                #[trigger] sample_hits(mapped, p, sd, dur, target, s, deadline, interval, k);
            assert(t + (k0 + 1) * interval == s + k0 * interval) by (nonlinear_arith)
                requires
                    s == t + interval,
            ;
            assert(sample_hits(mapped, p, sd, dur, target, t, deadline, interval, k0 + 1));
        }
        if exists|k: nat| #[trigger] sample_hits(mapped, p, sd, dur, target, t, deadline, interval, k) {
            let k0 = choose|k: nat|
                #[trigger] sample_hits(mapped, p, sd, dur, target, t, deadline, interval, k);
            if k0 == 0 {
                assert(t + 0 * interval == t);
                assert(false);
            } else {
                assert(s + (k0 - 1) * interval == t + k0 * interval) by (nonlinear_arith)
                    requires
                        s == t + interval && k0 >= 1,
                ;
                assert(sample_hits(
                    mapped,
                    p,
                    sd,
                    dur,
                    target,
                    s,
                    deadline,
                    interval,
                    (k0 - 1) as nat,
                ));
            }
        }
    }
}

/// A hit lies on or after the start of the walk, strictly before the
/// deadline, and observes the target.
pub proof fn lemma_first_hit_range(
    mapped: bool,
    p: RunPhase,
    sd: u64,
    dur: u64,
    target: bool,
    t: u64,
    deadline: u64,
    interval: u64,
)
    requires
        1 <= interval,
        deadline + 2 * interval <= u64::MAX,
    ensures
        first_hit(mapped, p, sd, dur, target, t, deadline, interval) matches Some(h) ==> t <= h
            < deadline && obs_at(mapped, p, sd, dur, h) == target,
    decreases span_left(t as int, deadline as int),
{
    if t < deadline && obs_at(mapped, p, sd, dur, t) != target {
        lemma_first_hit_range(mapped, p, sd, dur, target, (t + interval) as u64, deadline, interval);
    }
}

/// The first hit the device `d` yields from its current instant.
pub open spec fn device_first_hit(d: SimDevice, target: bool, deadline: u64, interval: u64) -> Option<u64> {
    first_hit(
        d.running_mapped(),
        d.spec_phase(),
        d.spec_sd(),
        d.spec_dur(),
        target,
        d.spec_now(),
        deadline,
        interval,
    )
}

/// Poll the running signal until it equals `target` or `deadline`
/// elapses on the device clock, observing every `interval` milliseconds.
///
/// Returns `Reached` exactly when some polling instant strictly before
/// the deadline observes the target, and stops at that instant; returns
/// `DeadlineElapsed` otherwise, no later than the deadline plus one
/// interval.
pub fn wait_until(dev: &mut SimDevice, target: bool, deadline: u64, interval: u64) -> (r:
    PollOutcome)
    requires
        old(dev).wf(),
        1 <= interval <= MAX_SPAN_MS,
        deadline + interval <= MAX_SIM_MS,
    ensures
        final(dev).wf(),
        final(dev).spec_timing() == old(dev).spec_timing(),
        final(dev).spec_addrs() == old(dev).spec_addrs(),
        final(dev).spec_store().registers_view() == old(dev).spec_store().registers_view(),
        final(dev).spec_store().coils_view().dom() == old(dev).spec_store().coils_view().dom(),
        forall|a: u16|
            a != old(dev).spec_addrs().running_coil && old(dev).spec_store().coil_mapped(a)
                ==> final(dev).spec_store().coils_view()[a] == old(dev).spec_store().coils_view()[a],
        final(dev).running_mapped() == old(dev).running_mapped(),
        final(dev).spec_phase() == spec_sync_phase(
            old(dev).spec_phase(),
            final(dev).spec_now() as int,
            old(dev).spec_sd(),
            old(dev).spec_dur(),
        ),
        old(dev).spec_now() <= final(dev).spec_now(),
        match device_first_hit(*old(dev), target, deadline, interval) {
            Some(t) => r == PollOutcome::Reached && final(dev).spec_now() == t,
            None => {
                &&& r == PollOutcome::DeadlineElapsed
                &&& (if old(dev).spec_now() >= deadline {
                    final(dev).spec_now() == old(dev).spec_now()
                } else {
                    deadline <= final(dev).spec_now() < deadline + interval
                })
                &&& final(dev).spec_now() == next_sample(
                    old(dev).spec_now() as int,
                    interval as int,
                    deadline as int,
                )
            },
        },
{
    loop
        invariant
            dev.wf(),
            1 <= interval <= MAX_SPAN_MS,
            deadline + interval <= MAX_SIM_MS,
            dev.spec_timing() == old(dev).spec_timing(),
            dev.spec_addrs() == old(dev).spec_addrs(),
            dev.spec_store().registers_view() == old(dev).spec_store().registers_view(),
            dev.spec_store().coils_view().dom() == old(dev).spec_store().coils_view().dom(),
            forall|a: u16|
                a != old(dev).spec_addrs().running_coil && old(dev).spec_store().coil_mapped(a)
                    ==> dev.spec_store().coils_view()[a] == old(dev).spec_store().coils_view()[a],
            dev.running_mapped() == old(dev).running_mapped(),
            forall|t: u64| dev.spec_now() <= t ==> dev.observed_at(t) == old(dev).observed_at(t),
            dev.spec_phase() == spec_sync_phase(
                old(dev).spec_phase(),
                dev.spec_now() as int,
                old(dev).spec_sd(),
                old(dev).spec_dur(),
            ),
            old(dev).spec_now() <= dev.spec_now(),
            first_hit(
                old(dev).running_mapped(),
                old(dev).spec_phase(),
                old(dev).spec_sd(),
                old(dev).spec_dur(),
                target,
                dev.spec_now(),
                deadline,
                interval,
            ) == device_first_hit(*old(dev), target, deadline, interval),
            dev.spec_now() > old(dev).spec_now() ==> dev.spec_now() < deadline + interval,
            old(dev).spec_now() >= deadline ==> dev.spec_now() == old(dev).spec_now(),
            next_sample(dev.spec_now() as int, interval as int, deadline as int) == next_sample(
                old(dev).spec_now() as int,
                interval as int,
                deadline as int,
            ),
        decreases span_left(dev.spec_now() as int, deadline as int),
    {
        let now = dev.now_ms();
        if now >= deadline {
            return PollOutcome::DeadlineElapsed;
        }
        let obs = dev.read_running();
        proof {
            assert(dev.observed_at(dev.spec_now()) == old(dev).observed_at(dev.spec_now()));
            assert(old(dev).observed_at(dev.spec_now()) == obs_at(
                old(dev).running_mapped(),
                old(dev).spec_phase(),
                old(dev).spec_sd(),
                old(dev).spec_dur(),
                dev.spec_now(),
            ));
        }
        if obs == target {
            return PollOutcome::Reached;
        }
        let ghost pre = *dev;
        dev.advance(interval);
        proof {
            crate::device::lemma_sync_compose(
                old(dev).spec_phase(),
                pre.spec_now() as int,
                dev.spec_now() as int,
                old(dev).spec_sd(),
                old(dev).spec_dur(),
            );
            assert forall|a: u16|
                a != old(dev).spec_addrs().running_coil && old(dev).spec_store().coil_mapped(a)
                    implies dev.spec_store().coils_view()[a] == old(dev).spec_store().coils_view()[a] by {
                assert(pre.spec_store().coil_mapped(a));
                assert(dev.spec_store().coils_view()[a] == pre.spec_store().coils_view()[a]);
            }
            assert forall|t: u64| dev.spec_now() <= t implies dev.observed_at(t) == old(
                dev,
            ).observed_at(t) by {
                assert(dev.observed_at(t) == pre.observed_at(t));
            }
            assert(first_hit(
                old(dev).running_mapped(),
                old(dev).spec_phase(),
                old(dev).spec_sd(),
                old(dev).spec_dur(),
                target,
                pre.spec_now(),
                deadline,
                interval,
            ) == first_hit(
                old(dev).running_mapped(),
                old(dev).spec_phase(),
                old(dev).spec_sd(),
                old(dev).spec_dur(),
                target,
                dev.spec_now(),
                deadline,
                interval,
            ));
        }
    }
}

/// The decision a live polling loop takes after one observation.
#[derive(Clone, Copy, Debug, PartialEq, Eq, Structural)]
pub enum PollStep {
    /// The observation equals the target: stop with success.
    Hit,
    /// The allotted time has elapsed: stop without success.
    Expired,
    /// Neither: sleep one interval and observe again.
    KeepWaiting,
}

/// One step of the polling loop: the wait expires once the elapsed
/// time exceeds the timeout, succeeds the moment an observation equals
/// the target, and otherwise keeps waiting.
pub fn poll_step(observed: bool, target: bool, elapsed_ms: u64, timeout_ms: u64) -> (s: PollStep)
    ensures
        s == (if elapsed_ms > timeout_ms {
            PollStep::Expired
        } else if observed == target {
            PollStep::Hit
        } else {
            PollStep::KeepWaiting
        }),
{
    if elapsed_ms > timeout_ms {
        PollStep::Expired
    } else if observed == target {
        PollStep::Hit
    } else {
        PollStep::KeepWaiting
    }
}

/// How waiting on the running signal ended.
#[derive(Clone, Copy, Debug, PartialEq, Eq, Structural)]
pub enum WaitForRunningResult {
    /// The running signal reached the target state in time.
    Success,
    /// The allotted time elapsed first.
    Timeout,
}

/// Wait up to `timeout_ms` for the running signal to equal
/// `target_state`, polling every `interval_ms`.
pub fn wait_for_running(
    dev: &mut SimDevice,
    target_state: bool,
    timeout_ms: u64,
    interval_ms: u64,
) -> (r: WaitForRunningResult)
    requires
        old(dev).wf(),
        1 <= interval_ms <= MAX_SPAN_MS,
        timeout_ms <= MAX_SPAN_MS,
        old(dev).spec_now() + timeout_ms + interval_ms <= MAX_SIM_MS,
    ensures
        final(dev).wf(),
        final(dev).spec_timing() == old(dev).spec_timing(),
        final(dev).spec_addrs() == old(dev).spec_addrs(),
        final(dev).spec_store().registers_view() == old(dev).spec_store().registers_view(),
        final(dev).spec_store().coils_view().dom() == old(dev).spec_store().coils_view().dom(),
        forall|a: u16|
            a != old(dev).spec_addrs().running_coil && old(dev).spec_store().coil_mapped(a)
                ==> final(dev).spec_store().coils_view()[a] == old(dev).spec_store().coils_view()[a],
        final(dev).running_mapped() == old(dev).running_mapped(),
        final(dev).spec_phase() == spec_sync_phase(
            old(dev).spec_phase(),
            final(dev).spec_now() as int,
            old(dev).spec_sd(),
            old(dev).spec_dur(),
        ),
        old(dev).spec_now() <= final(dev).spec_now(),
        match device_first_hit(
            *old(dev),
            target_state,
            (old(dev).spec_now() + timeout_ms) as u64,
            interval_ms,
        ) {
            Some(t) => r == WaitForRunningResult::Success && final(dev).spec_now() == t,
            None => r == WaitForRunningResult::Timeout && old(dev).spec_now() + timeout_ms
                <= final(dev).spec_now() < old(dev).spec_now() + timeout_ms + interval_ms,
        },
{
    let deadline = dev.now_ms() + timeout_ms;
    match wait_until(dev, target_state, deadline, interval_ms) {
        PollOutcome::Reached => WaitForRunningResult::Success,
        PollOutcome::DeadlineElapsed => WaitForRunningResult::Timeout,
    }
}

} // verus!
