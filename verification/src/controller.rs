//! The subroutine controller: write the index, assert enable, wait for
//! the running signal to rise and fall again, and acknowledge — with an
//! optional cancellation deadline raced against each wait.

use vstd::prelude::*;
use crate::device::{MAX_SIM_MS, MAX_SPAN_MS, RunPhase, SimDevice, phase_running_at, spec_sync_phase};
use crate::poller::{
    PollOutcome, device_first_hit, first_hit, lemma_first_hit_here, lemma_first_hit_skip,
    lemma_next_sample_bounds, next_sample, obs_at, wait_until,
};
use crate::store::AddressError;

verus! {

/// The timeouts and polling interval one controller invocation uses.
#[derive(Clone, Copy, Debug)]
pub struct PollConfig {
    /// Sleep between two observations of the running signal.
    pub interval_ms: u64,
    /// How long the device may take to acknowledge it began work.
    pub start_timeout_ms: u64,
    /// How long a subroutine may run before completion times out.
    pub completion_timeout_ms: u64,
    /// Grace period for the device to stop after a cancellation.
    pub grace_timeout_ms: u64,
    /// Settle delay before the completion post-check re-reads the
    /// running signal.
    pub settle_ms: u64,
}

impl PollConfig {
    /// Positive, bounded spans.
    pub open spec fn wf(self) -> bool {
        &&& 1 <= self.interval_ms <= MAX_SPAN_MS
        &&& 1 <= self.start_timeout_ms <= MAX_SPAN_MS
        &&& 1 <= self.completion_timeout_ms <= MAX_SPAN_MS
        &&& 1 <= self.grace_timeout_ms <= MAX_SPAN_MS
        &&& self.settle_ms <= MAX_SPAN_MS
    }

    /// Upper bound on how far one controller invocation advances the
    /// device clock beyond any cancellation delay.
    pub open spec fn run_span(self) -> int {
        self.start_timeout_ms + self.completion_timeout_ms + self.grace_timeout_ms + self.settle_ms
            + 4 * self.interval_ms
    }

    /// The stock configuration: 10 ms polls, one second to start, one
    /// minute to complete, one second of stop grace, 100 ms settle.
    pub fn standard() -> (c: PollConfig)
        ensures
            c == (PollConfig {
                interval_ms: 10,
                start_timeout_ms: 1000,
                completion_timeout_ms: 60000,
                grace_timeout_ms: 1000,
                settle_ms: 100,
            }),
            c.wf(),
    {
        PollConfig {
            interval_ms: 10,
            start_timeout_ms: 1000,
            completion_timeout_ms: 60000,
            grace_timeout_ms: 1000,
            settle_ms: 100,
        }
    }
}

/// Which wait a timeout interrupted.
#[derive(Clone, Copy, Debug, PartialEq, Eq, Structural)]
pub enum WaitPhase {
    /// Waiting for the device to acknowledge it began work.
    Start,
    /// Waiting for the subroutine to run to completion.
    Completion,
}

/// Why a controller invocation failed.
#[derive(Clone, Copy, Debug, PartialEq, Eq, Structural)]
pub enum ControlError {
    /// A register access referenced an unmapped offset.
    Addressing(AddressError),
    /// A wait exceeded its horizon with no cancellation in play.
    TimedOut(WaitPhase),
    /// The device did not honor a stop command, or resumed running
    /// after being told to stop.
    PostconditionViolated,
}

/// How a cancellation-capable invocation ended when no error occurred.
#[derive(Clone, Copy, Debug, PartialEq, Eq, Structural)]
pub enum EarlyStopResult {
    /// The cancellation was delivered and honored before natural
    /// completion.
    Success,
    /// The subroutine was observed complete before the cancellation
    /// instant arrived.
    TooLate,
}

/// A device ready for a nominal run: it honors stops, runs only on
/// rising edges, and its three control points are mapped with the
/// enable signal low and no run in flight.
pub open spec fn nominal(d: SimDevice) -> bool {
    &&& d.spec_timing().honors_stop
    &&& !d.spec_timing().restarts_after_stop
    &&& d.running_mapped()
    &&& d.spec_store().coil_mapped(d.spec_addrs().enable_coil)
    &&& d.spec_store().spec_coil(d.spec_addrs().enable_coil) == false
    &&& d.spec_phase() is Idle
    &&& d.spec_store().reg_mapped(d.spec_addrs().index_register)
}

/// The device's delays are coarse enough for the configured polling to
/// observe the run: the start is seen within the start timeout, a
/// sample lands inside the running window, and completion is seen
/// within the completion timeout.
pub open spec fn timing_within(d: SimDevice, cfg: PollConfig) -> bool {
    &&& d.spec_sd() + cfg.interval_ms <= cfg.start_timeout_ms
    &&& cfg.interval_ms <= d.spec_dur()
    &&& d.spec_dur() + cfg.interval_ms <= cfg.completion_timeout_ms
}

/// The phase the device holds right after the controller writes the
/// subroutine index (which touches no coil) and drives the enable coil
/// high, with `d` the device the controller was handed.
pub open spec fn armed_phase(d: SimDevice) -> RunPhase {
    spec_sync_phase(d.spec_enable_react(true), d.spec_now() as int, d.spec_sd(), d.spec_dur())
}

/// The device's reaction to the completion acknowledgment: enable
/// driven low at instant `t` from phase `p`, on a device whose enable
/// coil has been held high since the controller armed it. With an
/// unmapped enable coil no edge ever occurred and none occurs now.
pub open spec fn acked_phase(d: SimDevice, p: RunPhase, t: u64) -> RunPhase {
    if d.spec_store().coil_mapped(d.spec_addrs().enable_coil) {
        if d.spec_timing().restarts_after_stop {
            RunPhase::Pending { enabled_at: t }
        } else if d.spec_timing().honors_stop {
            RunPhase::Idle
        } else {
            p
        }
    } else {
        p
    }
}

/// The polling instant at which a run armed at `t0` is first observed
/// running.
pub open spec fn observed_start(t0: u64, sd: u64, interval: u64) -> int {
    next_sample(t0 as int, interval as int, t0 + sd)
}

/// The offset from the start of a cancellation-capable invocation to
/// the instant the cancellation fires, on the polling grid: the first
/// polling instant at or after the cancellation delay.
pub open spec fn cancel_offset(delay: u64, interval: u64) -> int {
    next_sample(0, interval as int, delay as int)
}

/// The polling instant at which a run armed at `t0` is first observed
/// complete.
pub open spec fn observed_completion(t0: u64, sd: u64, dur: u64, interval: u64) -> int {
    next_sample(observed_start(t0, sd, interval), interval as int, t0 + sd + dur)
}

/// A run armed at `t0` on an idle device is first observed running at
/// `observed_start(t0, sd, interval)`, provided a polling sample lands
/// inside the running window and the deadline is generous enough.
pub proof fn lemma_observed_start(
    p: RunPhase,
    sd: u64,
    dur: u64,
    t0: u64,
    deadline: u64,
    interval: u64,
)
    requires
        1 <= interval,
        deadline + 2 * interval <= u64::MAX,
        t0 + sd + dur + interval <= u64::MAX,
        p == spec_sync_phase(RunPhase::Pending { enabled_at: t0 }, t0 as int, sd, dur),
        interval <= dur,
    ensures
        ({
            let th = observed_start(t0, sd, interval);
            &&& t0 <= th
            &&& t0 + sd <= th < t0 + sd + interval
            &&& th < deadline ==> first_hit(true, p, sd, dur, true, t0, deadline, interval)
                == Some(th as u64)
            &&& th >= deadline ==> first_hit(true, p, sd, dur, true, t0, deadline, interval) is None
            &&& spec_sync_phase(p, th, sd, dur) == RunPhase::Active { enabled_at: t0 }
        }),
{
    let w = t0 + sd;
    let th = next_sample(t0 as int, interval as int, w);
    lemma_next_sample_bounds(t0 as int, interval as int, w);
    if sd == 0 {
        assert(p == RunPhase::Active { enabled_at: t0 });
    } else {
        assert(p == RunPhase::Pending { enabled_at: t0 });
    }
    assert forall|u: u64| t0 <= u < w implies obs_at(true, p, sd, dur, u) != true by {
        assert(!phase_running_at(p, sd, dur, u));
    }
    lemma_first_hit_skip(true, p, sd, dur, true, t0, deadline, interval, w as u64);
    assert(obs_at(true, p, sd, dur, th as u64) == true);
    if th < deadline {
        lemma_first_hit_here(true, p, sd, dur, true, th as u64, deadline, interval);
    }
}

/// A run observed running at `th` is first observed complete at the
/// next polling sample at or after its natural completion, provided
/// the deadline is generous enough.
pub proof fn lemma_observed_completion(
    sd: u64,
    dur: u64,
    t0: u64,
    th: u64,
    deadline: u64,
    interval: u64,
)
    requires
        1 <= interval,
        deadline + 2 * interval <= u64::MAX,
        t0 + sd + dur + interval <= u64::MAX,
        t0 + sd <= th < t0 + sd + dur,
    ensures
        ({
            let e = t0 + sd + dur;
            let td = next_sample(th as int, interval as int, e);
            &&& th <= td
            &&& e <= td < e + interval
            &&& td < deadline ==> first_hit(
                true,
                RunPhase::Active { enabled_at: t0 },
                sd,
                dur,
                false,
                th,
                deadline,
                interval,
            ) == Some(td as u64)
            &&& td >= deadline ==> first_hit(
                true,
                RunPhase::Active { enabled_at: t0 },
                sd,
                dur,
                false,
                th,
                deadline,
                interval,
            ) is None
            &&& spec_sync_phase(RunPhase::Active { enabled_at: t0 }, td, sd, dur) is Idle
        }),
{
    let p = RunPhase::Active { enabled_at: t0 };
    let e = t0 + sd + dur;
    let td = next_sample(th as int, interval as int, e);
    lemma_next_sample_bounds(th as int, interval as int, e);
    assert forall|u: u64| th <= u < e implies obs_at(true, p, sd, dur, u) != false by {
        assert(phase_running_at(p, sd, dur, u));
    }
    lemma_first_hit_skip(true, p, sd, dur, false, th, deadline, interval, e as u64);
    assert(obs_at(true, p, sd, dur, td as u64) == false);
    if td < deadline {
        lemma_first_hit_here(true, p, sd, dur, false, td as u64, deadline, interval);
    }
}

/// The offset from the arming instant to the completion observation,
/// on the polling grid. It does not depend on the arming instant:
/// every run of the same device under the same polling is observed
/// complete the same time after it was armed.
pub open spec fn completion_offset(sd: u64, dur: u64, interval: u64) -> int {
    next_sample(next_sample(0, interval as int, sd as int), interval as int, sd + dur)
}

/// Walking the grid to a window is invariant under shifting both.
pub proof fn lemma_next_sample_shift(t: int, interval: int, w: int, c: int)
    requires
        1 <= interval,
    ensures
        next_sample(t + c, interval, w + c) == next_sample(t, interval, w) + c,
    decreases crate::poller::span_left(t, w),
{
    if t < w {
        lemma_next_sample_shift(t + interval, interval, w, c);
    }
}

/// The completion observation of a run armed at `t0` sits exactly
/// `completion_offset` after `t0`.
pub proof fn lemma_completion_offset(t0: u64, sd: u64, dur: u64, interval: u64)
    requires
        1 <= interval,
    ensures
        observed_start(t0, sd, interval) == t0 + next_sample(0, interval as int, sd as int),
        observed_completion(t0, sd, dur, interval) == t0 + completion_offset(sd, dur, interval),
{
    lemma_next_sample_shift(0, interval as int, sd as int, t0 as int);
    lemma_next_sample_shift(
        next_sample(0, interval as int, sd as int),
        interval as int,
        sd + dur,
        t0 as int,
    );
}

/// The deadline that bounds the next wait under a cancellation race:
/// the wait's own horizon when that horizon elapses strictly before the
/// cancellation instant (cancellation is then irrelevant to this
/// phase), else the cancellation instant itself. The second component
/// says whether the cancellation instant is the binding bound.
pub fn race_deadline(now_ms: u64, horizon_ms: u64, cancel_at_ms: u64) -> (r: (u64, bool))
    requires
        now_ms + horizon_ms <= MAX_SIM_MS,
    ensures
        r.1 == !(now_ms + horizon_ms < cancel_at_ms),
        !r.1 ==> r.0 == now_ms + horizon_ms,
        r.1 ==> r.0 == cancel_at_ms,
{
    let horizon_end = now_ms + horizon_ms;
    if horizon_end < cancel_at_ms {
        (horizon_end, false)
    } else {
        (cancel_at_ms, true)
    }
}

/// Deliver a cancellation mid-operation: deassert enable and hold the
/// device to stopping within the grace period; a device still running
/// at every poll of the grace window has violated the stop
/// postcondition.
pub fn execute_early_stop(dev: &mut SimDevice, cfg: &PollConfig) -> (r: Result<(), ControlError>)
    requires
        old(dev).wf(),
        cfg.wf(),
        old(dev).spec_now() + cfg.grace_timeout_ms + cfg.interval_ms <= MAX_SIM_MS,
    ensures
        final(dev).wf(),
        final(dev).spec_timing() == old(dev).spec_timing(),
        final(dev).spec_addrs() == old(dev).spec_addrs(),
        final(dev).spec_store().registers_view() == old(dev).spec_store().registers_view(),
        final(dev).spec_store().coils_view().dom() == old(dev).spec_store().coils_view().dom(),
        final(dev).running_mapped() == old(dev).running_mapped(),
        old(dev).spec_store().coil_mapped(old(dev).spec_addrs().enable_coil) ==> final(dev).spec_store().coils_view()[old(dev).spec_addrs().enable_coil] == false,
        old(dev).spec_now() <= final(dev).spec_now() <= old(dev).spec_now() + cfg.grace_timeout_ms
            + cfg.interval_ms,
        ({
            let p1 = spec_sync_phase(
                old(dev).spec_enable_react(false),
                old(dev).spec_now() as int,
                old(dev).spec_sd(),
                old(dev).spec_dur(),
            );
            let fh = first_hit(
                old(dev).running_mapped(),
                p1,
                old(dev).spec_sd(),
                old(dev).spec_dur(),
                false,
                old(dev).spec_now(),
                (old(dev).spec_now() + cfg.grace_timeout_ms) as u64,
                cfg.interval_ms,
            );
            match fh {
                Some(t) => r == Ok::<(), ControlError>(()) && final(dev).spec_now() == t
                    && final(dev).spec_phase() == spec_sync_phase(
                    p1,
                    t as int,
                    old(dev).spec_sd(),
                    old(dev).spec_dur(),
                ),
                None => r == Err::<(), ControlError>(ControlError::PostconditionViolated)
                    && old(dev).spec_now() + cfg.grace_timeout_ms <= final(dev).spec_now(),
            }
        }),
{
    dev.set_enable(false);
    let ghost mid = *dev;
    let deadline = dev.now_ms() + cfg.grace_timeout_ms;
    let outcome = wait_until(dev, false, deadline, cfg.interval_ms);
    proof {
        crate::poller::lemma_first_hit_range(
            mid.running_mapped(),
            mid.spec_phase(),
            mid.spec_sd(),
            mid.spec_dur(),
            false,
            mid.spec_now(),
            deadline,
            cfg.interval_ms,
        );
        if old(dev).spec_store().coil_mapped(old(dev).spec_addrs().enable_coil) {
            assert(mid.spec_store().coil_mapped(old(dev).spec_addrs().enable_coil));
            assert(mid.spec_store().coils_view()[old(dev).spec_addrs().enable_coil] == false);
            assert(dev.spec_store().coils_view()[old(dev).spec_addrs().enable_coil]
                == mid.spec_store().coils_view()[old(dev).spec_addrs().enable_coil]);
        }
    }
    match outcome {
        PollOutcome::Reached => Ok(()),
        PollOutcome::DeadlineElapsed => Err(ControlError::PostconditionViolated),
    }
}

/// Execute the subroutine at `idx` to natural completion: write the
/// index, assert enable, wait for the running signal to rise within
/// the start timeout and to fall again within the completion timeout,
/// then acknowledge by deasserting enable and re-check after a settle
/// delay that the device did not resume running.
///
/// The enable coil reads `false` after return on every outcome, and a
/// successful return means the post-settle re-read observed the
/// running signal low. The invocation fails with an addressing error
/// exactly when the index register is unmapped; with a mapped index
/// register the outcome is classified by the observations alone: no
/// observation of the running signal within the start horizon is a
/// start-phase timeout, none of its fall within the completion horizon
/// is a completion-phase timeout, and a device observed running again
/// one settle delay after the acknowledgment — the firmware fault a
/// stop-honoring, edge-triggered device can never show — is a
/// postcondition violation. On a nominal device whose delays the
/// polling can observe, the run completes: the result is `Ok`, and the
/// clock stops at the observed completion instant plus the settle
/// delay.
pub fn sr_single(dev: &mut SimDevice, idx: u16, cfg: &PollConfig) -> (r: Result<(), ControlError>)
    requires
        old(dev).wf(),
        cfg.wf(),
        old(dev).spec_now() + cfg.run_span() <= MAX_SIM_MS,
    ensures
        final(dev).wf(),
        final(dev).spec_timing() == old(dev).spec_timing(),
        final(dev).spec_addrs() == old(dev).spec_addrs(),
        final(dev).spec_store().coils_view().dom() == old(dev).spec_store().coils_view().dom(),
        final(dev).running_mapped() == old(dev).running_mapped(),
        old(dev).spec_store().reg_mapped(old(dev).spec_addrs().index_register) ==> final(dev).spec_store().registers_view() == old(dev).spec_store().registers_view().insert(old(dev).spec_addrs().index_register, idx),
        !old(dev).spec_store().reg_mapped(old(dev).spec_addrs().index_register) ==> final(dev).spec_store().registers_view() == old(dev).spec_store().registers_view(),
        old(dev).spec_store().coil_mapped(old(dev).spec_addrs().enable_coil) ==> final(dev).spec_store().coils_view()[old(dev).spec_addrs().enable_coil] == false,
        old(dev).spec_now() <= final(dev).spec_now() <= old(dev).spec_now() + cfg.run_span(),
        !old(dev).spec_store().reg_mapped(old(dev).spec_addrs().index_register) ==> r == Err::<(), ControlError>(ControlError::Addressing(AddressError { addr: old(dev).spec_addrs().index_register })),
        r matches Err(ControlError::Addressing(e)) ==> !old(dev).spec_store().reg_mapped(old(dev).spec_addrs().index_register) && e.addr == old(dev).spec_addrs().index_register,
        (nominal(*old(dev)) && timing_within(*old(dev), *cfg)) ==> ({
            let tdone = observed_completion(
                old(dev).spec_now(),
                old(dev).spec_sd(),
                old(dev).spec_dur(),
                cfg.interval_ms,
            );
            &&& r == Ok::<(), ControlError>(())
            &&& final(dev).spec_now() == tdone + cfg.settle_ms
            &&& final(dev).spec_phase() is Idle
            &&& final(dev).spec_store().coils_view()[old(dev).spec_addrs().running_coil] == false
        }),
        old(dev).spec_store().reg_mapped(old(dev).spec_addrs().index_register) ==> ({
            let d = *old(dev);
            let fh1 = first_hit(
                d.running_mapped(),
                armed_phase(d),
                d.spec_sd(),
                d.spec_dur(),
                true,
                d.spec_now(),
                (d.spec_now() + cfg.start_timeout_ms) as u64,
                cfg.interval_ms,
            );
            match fh1 {
                None => r == Err::<(), ControlError>(ControlError::TimedOut(WaitPhase::Start)),
                Some(t1) => ({
                    let p3 = spec_sync_phase(armed_phase(d), t1 as int, d.spec_sd(), d.spec_dur());
                    let fh2 = first_hit(
                        d.running_mapped(),
                        p3,
                        d.spec_sd(),
                        d.spec_dur(),
                        false,
                        t1,
                        (t1 + cfg.completion_timeout_ms) as u64,
                        cfg.interval_ms,
                    );
                    match fh2 {
                        None => r == Err::<(), ControlError>(
                            ControlError::TimedOut(WaitPhase::Completion),
                        ),
                        Some(t2) => ({
                            let p6 = spec_sync_phase(
                                acked_phase(
                                    d,
                                    spec_sync_phase(p3, t2 as int, d.spec_sd(), d.spec_dur()),
                                    t2,
                                ),
                                t2 + cfg.settle_ms,
                                d.spec_sd(),
                                d.spec_dur(),
                            );
                            &&& final(dev).spec_now() == t2 + cfg.settle_ms
                            &&& final(dev).spec_phase() == p6
                            &&& (d.running_mapped() && p6 is Active ==> r == Err::<(), ControlError>(
                                ControlError::PostconditionViolated,
                            ))
                            &&& (!(d.running_mapped() && p6 is Active) ==> r == Ok::<(), ControlError>(
                                (),
                            ))
                        }),
                    }
                }),
            }
        }),
        (old(dev).spec_timing().honors_stop && !old(dev).spec_timing().restarts_after_stop
            && old(dev).spec_store().coil_mapped(old(dev).spec_addrs().enable_coil)) ==> r
            != Err::<(), ControlError>(ControlError::PostconditionViolated),
        r is Ok ==> final(dev).spec_store().spec_coil(old(dev).spec_addrs().running_coil) == false,
{
    let ghost d0 = *old(dev);
    let ghost t0 = d0.spec_now();
    let ghost sd = d0.spec_sd();
    let ghost dur = d0.spec_dur();
    let ghost iv = cfg.interval_ms;
    let ghost good = nominal(d0) && timing_within(d0, *cfg);
    let ghost mapped = d0.running_mapped();
    let ghost en = d0.spec_addrs().enable_coil;
    let ghost p2 = armed_phase(d0);

    match dev.set_index(idx) {
        Err(e) => {
            dev.set_enable(false);
            return Err(ControlError::Addressing(e));
        },
        Ok(()) => {},
    }
    let ghost d1 = *dev;
    dev.set_enable(true);
    let ghost d2 = *dev;
    let deadline1 = dev.now_ms() + cfg.start_timeout_ms;
    proof {
        assert(d1.spec_store().spec_coil(en) == d0.spec_store().spec_coil(en));
        assert(d1.spec_store().coil_mapped(en) == d0.spec_store().coil_mapped(en));
        assert(d1.spec_enable_react(true) == d0.spec_enable_react(true));
        assert(d2.spec_phase() == p2);
        assert(d2.running_mapped() == mapped);
        if d0.spec_store().coil_mapped(en) {
            assert(d2.spec_store().coils_view()[en] == true);
        }
        if good {
            assert(d1.spec_store().spec_coil(en) == false);
            assert(p2 == spec_sync_phase(RunPhase::Pending { enabled_at: t0 }, t0 as int, sd, dur));
            lemma_observed_start(p2, sd, dur, t0, deadline1, iv);
            assert(device_first_hit(d2, true, deadline1, iv) == Some(
                observed_start(t0, sd, iv) as u64,
            ));
        }
    }
    let o1 = wait_until(dev, true, deadline1, cfg.interval_ms);
    let ghost d3 = *dev;
    proof {
        crate::poller::lemma_first_hit_range(
            mapped,
            p2,
            sd,
            dur,
            true,
            t0,
            deadline1,
            iv,
        );
        assert(d3.spec_now() <= deadline1 + iv);
    }
    match o1 {
        PollOutcome::DeadlineElapsed => {
            dev.set_enable(false);
            proof {
                assert(d3.spec_store().coil_mapped(en) == d0.spec_store().coil_mapped(en));
            }
            return Err(ControlError::TimedOut(WaitPhase::Start));
        },
        PollOutcome::Reached => {},
    }
    let ghost t1 = d3.spec_now();
    let ghost p3 = spec_sync_phase(p2, t1 as int, sd, dur);
    let deadline2 = dev.now_ms() + cfg.completion_timeout_ms;
    proof {
        assert(d3.spec_phase() == p3);
        if d0.spec_store().coil_mapped(en) {
            assert(d2.spec_store().coil_mapped(en));
            assert(d3.spec_store().coils_view()[en] == d2.spec_store().coils_view()[en]);
        }
        if good {
            let th = observed_start(t0, sd, iv);
            assert(t1 == th);
            assert(p3 == RunPhase::Active { enabled_at: t0 });
            lemma_observed_completion(sd, dur, t0, th as u64, deadline2, iv);
            assert(device_first_hit(d3, false, deadline2, iv) == Some(
                observed_completion(t0, sd, dur, iv) as u64,
            ));
        }
    }
    let o2 = wait_until(dev, false, deadline2, cfg.interval_ms);
    let ghost d4 = *dev;
    proof {
        crate::poller::lemma_first_hit_range(
            mapped,
            p3,
            sd,
            dur,
            false,
            t1,
            deadline2,
            iv,
        );
        assert(d4.spec_now() <= deadline2 + iv);
    }
    match o2 {
        PollOutcome::DeadlineElapsed => {
            dev.set_enable(false);
            proof {
                assert(d4.spec_store().coil_mapped(en) == d0.spec_store().coil_mapped(en));
            }
            return Err(ControlError::TimedOut(WaitPhase::Completion));
        },
        PollOutcome::Reached => {},
    }
    let ghost t2 = d4.spec_now();
    let ghost p4 = spec_sync_phase(p3, t2 as int, sd, dur);
    proof {
        assert(d4.spec_phase() == p4);
        assert(d4.spec_store().coil_mapped(en) == d0.spec_store().coil_mapped(en));
        if d0.spec_store().coil_mapped(en) {
            assert(d3.spec_store().coil_mapped(en));
            assert(d4.spec_store().coils_view()[en] == d3.spec_store().coils_view()[en]);
            assert(d4.spec_store().spec_coil(en) == true);
        } else {
            assert(d4.spec_store().spec_coil(en) == false);
        }
    }
    dev.set_enable(false);
    let ghost d5 = *dev;
    proof {
        assert(d4.spec_enable_react(false) == acked_phase(d0, p4, t2));
        assert(d5.spec_phase() == spec_sync_phase(acked_phase(d0, p4, t2), t2 as int, sd, dur));
        if good {
            let tdone = observed_completion(t0, sd, dur, iv);
            assert(t2 == tdone);
            assert(p4 is Idle);
            assert(d5.spec_phase() is Idle);
            assert(d5.spec_now() == tdone);
        }
    }
    dev.advance(cfg.settle_ms);
    proof {
        crate::device::lemma_sync_compose(
            acked_phase(d0, p4, t2),
            t2 as int,
            t2 + cfg.settle_ms,
            sd,
            dur,
        );
        assert(dev.spec_phase() == spec_sync_phase(
            acked_phase(d0, p4, t2),
            t2 + cfg.settle_ms,
            sd,
            dur,
        ));
        if d0.spec_store().coil_mapped(en) {
            assert(d5.spec_store().coil_mapped(en));
            assert(d5.spec_store().coils_view()[en] == false);
            assert(dev.spec_store().coils_view()[en] == d5.spec_store().coils_view()[en]);
        }
        if good {
            assert(dev.spec_phase() is Idle);
        }
    }
    if dev.read_running() {
        return Err(ControlError::PostconditionViolated);
    }
    Ok(())
}

/// Where a run armed at `t0` is first observed running and complete,
/// relative to its true window.
pub proof fn lemma_observed_bounds(t0: u64, sd: u64, dur: u64, interval: u64)
    requires
        1 <= interval,
        interval <= dur,
    ensures
        t0 <= observed_start(t0, sd, interval),
        t0 + sd <= observed_start(t0, sd, interval) < t0 + sd + interval,
        observed_start(t0, sd, interval) <= observed_completion(t0, sd, dur, interval),
        t0 + sd + dur <= observed_completion(t0, sd, dur, interval) < t0 + sd + dur + interval,
{
    lemma_next_sample_bounds(t0 as int, interval as int, t0 + sd);
    lemma_next_sample_bounds(observed_start(t0, sd, interval), interval as int, t0 + sd + dur);
}

/// Start the subroutine at `idx` and race its execution against a
/// cancellation deadline `early_stop_ms` from now: before each wait the
/// controller compares the wait's own horizon against the time left to
/// the cancellation instant and polls only up to the nearer of the two.
/// If the cancellation instant arrives first, enable is deasserted and
/// the device must stop within the grace period (`Success`); if the
/// run is observed complete before the cancellation instant, the
/// normal completion sequence runs and the result is `TooLate`.
///
/// The enable coil reads `false` after return on every outcome, and
/// either successful outcome means the running signal was last
/// observed low. The invocation fails with an addressing error exactly
/// when the index register is unmapped; whenever a wait's own horizon
/// elapses strictly before the cancellation instant, that horizon
/// governs and its expiry is a timeout of that phase, never a
/// cancellation. On a nominal device whose delays the polling
/// can observe, the outcome is decided purely by wall-clock time:
/// `TooLate` exactly when the completion observation instant precedes
/// the cancellation instant, else `Success` — in particular the
/// cancellation wins whenever it is set strictly before natural
/// completion, and loses whenever it is set at least one polling
/// interval after natural completion. A winning cancellation fires at
/// the first polling instant at or after the cancellation delay.
#[verifier::rlimit(60)]
pub fn sr_single_early_stop(
    dev: &mut SimDevice,
    idx: u16,
    early_stop_ms: u64,
    cfg: &PollConfig,
) -> (r: Result<EarlyStopResult, ControlError>)
    requires
        old(dev).wf(),
        cfg.wf(),
        early_stop_ms <= 4 * MAX_SPAN_MS,
        old(dev).spec_now() + early_stop_ms + cfg.run_span() <= MAX_SIM_MS,
    ensures
        final(dev).wf(),
        final(dev).spec_timing() == old(dev).spec_timing(),
        final(dev).spec_addrs() == old(dev).spec_addrs(),
        final(dev).spec_store().coils_view().dom() == old(dev).spec_store().coils_view().dom(),
        final(dev).running_mapped() == old(dev).running_mapped(),
        old(dev).spec_store().reg_mapped(old(dev).spec_addrs().index_register) ==> final(dev).spec_store().registers_view() == old(dev).spec_store().registers_view().insert(old(dev).spec_addrs().index_register, idx),
        !old(dev).spec_store().reg_mapped(old(dev).spec_addrs().index_register) ==> final(dev).spec_store().registers_view() == old(dev).spec_store().registers_view(),
        old(dev).spec_store().coil_mapped(old(dev).spec_addrs().enable_coil) ==> final(dev).spec_store().coils_view()[old(dev).spec_addrs().enable_coil] == false,
        old(dev).spec_now() <= final(dev).spec_now() <= old(dev).spec_now() + early_stop_ms
            + cfg.run_span(),
        !old(dev).spec_store().reg_mapped(old(dev).spec_addrs().index_register) ==> r == Err::<EarlyStopResult, ControlError>(ControlError::Addressing(AddressError { addr: old(dev).spec_addrs().index_register })),
        r matches Err(ControlError::Addressing(e)) ==> !old(dev).spec_store().reg_mapped(old(dev).spec_addrs().index_register) && e.addr == old(dev).spec_addrs().index_register,
        (nominal(*old(dev)) && timing_within(*old(dev), *cfg)) ==> ({
            let t_end = old(dev).spec_now() + early_stop_ms;
            let tdone = observed_completion(
                old(dev).spec_now(),
                old(dev).spec_sd(),
                old(dev).spec_dur(),
                cfg.interval_ms,
            );
            &&& (tdone < t_end ==> r == Ok::<EarlyStopResult, ControlError>(
                EarlyStopResult::TooLate,
            ) && final(dev).spec_now() == tdone + cfg.settle_ms)
            &&& (tdone >= t_end ==> r == Ok::<EarlyStopResult, ControlError>(
                EarlyStopResult::Success,
            ) && final(dev).spec_now() == old(dev).spec_now() + cancel_offset(
                early_stop_ms,
                cfg.interval_ms,
            ) && t_end <= final(dev).spec_now() < t_end + cfg.interval_ms)
            &&& final(dev).spec_phase() is Idle
            &&& final(dev).spec_store().coils_view()[old(dev).spec_addrs().running_coil] == false
        }),
        (old(dev).spec_store().reg_mapped(old(dev).spec_addrs().index_register) && old(dev).spec_now()
            + cfg.start_timeout_ms < old(dev).spec_now() + early_stop_ms) ==> ({
            let d = *old(dev);
            let fh1 = first_hit(
                d.running_mapped(),
                armed_phase(d),
                d.spec_sd(),
                d.spec_dur(),
                true,
                d.spec_now(),
                (d.spec_now() + cfg.start_timeout_ms) as u64,
                cfg.interval_ms,
            );
            match fh1 {
                None => r == Err::<EarlyStopResult, ControlError>(
                    ControlError::TimedOut(WaitPhase::Start),
                ),
                Some(t1) => ({
                    let p3 = spec_sync_phase(armed_phase(d), t1 as int, d.spec_sd(), d.spec_dur());
                    let fh2 = first_hit(
                        d.running_mapped(),
                        p3,
                        d.spec_sd(),
                        d.spec_dur(),
                        false,
                        t1,
                        (t1 + cfg.completion_timeout_ms) as u64,
                        cfg.interval_ms,
                    );
                    (t1 + cfg.completion_timeout_ms < d.spec_now() + early_stop_ms && fh2 is None)
                        ==> r == Err::<EarlyStopResult, ControlError>(
                        ControlError::TimedOut(WaitPhase::Completion),
                    )
                }),
            }
        }),
        r == Ok::<EarlyStopResult, ControlError>(EarlyStopResult::TooLate) ==> final(dev).spec_store().spec_coil(old(dev).spec_addrs().running_coil) == false,
        r == Ok::<EarlyStopResult, ControlError>(EarlyStopResult::Success) ==> final(dev).spec_store().spec_coil(old(dev).spec_addrs().running_coil) == false,
        (nominal(*old(dev)) && timing_within(*old(dev), *cfg) && early_stop_ms < old(dev).spec_sd()
            + old(dev).spec_dur()) ==> r == Ok::<EarlyStopResult, ControlError>(
            EarlyStopResult::Success,
        ),
        (nominal(*old(dev)) && timing_within(*old(dev), *cfg) && early_stop_ms >= old(dev).spec_sd()
            + old(dev).spec_dur() + cfg.interval_ms) ==> r == Ok::<EarlyStopResult, ControlError>(
            EarlyStopResult::TooLate,
        ),
        r == Ok::<EarlyStopResult, ControlError>(EarlyStopResult::Success) ==> early_stop_ms
            <= cfg.start_timeout_ms + cfg.completion_timeout_ms + cfg.interval_ms,
{
    let ghost d0 = *old(dev);
    let ghost t0 = d0.spec_now();
    let ghost sd = d0.spec_sd();
    let ghost dur = d0.spec_dur();
    let ghost iv = cfg.interval_ms;
    let ghost good = nominal(d0) && timing_within(d0, *cfg);
    let ghost mapped = d0.running_mapped();
    let ghost en = d0.spec_addrs().enable_coil;
    let ghost p2 = armed_phase(d0);
    proof {
        if good {
            lemma_observed_bounds(t0, sd, dur, iv);
        }
    }

    match dev.set_index(idx) {
        Err(e) => {
            dev.set_enable(false);
            return Err(ControlError::Addressing(e));
        },
        Ok(()) => {},
    }
    let ghost d1 = *dev;
    dev.set_enable(true);
    let ghost d2 = *dev;
    let end_time = dev.now_ms() + early_stop_ms;
    let (deadline1, cancel1) = race_deadline(dev.now_ms(), cfg.start_timeout_ms, end_time);
    proof {
        assert(d1.spec_store().spec_coil(en) == d0.spec_store().spec_coil(en));
        assert(d1.spec_store().coil_mapped(en) == d0.spec_store().coil_mapped(en));
        assert(d1.spec_enable_react(true) == d0.spec_enable_react(true));
        assert(d2.spec_phase() == p2);
        assert(d2.running_mapped() == mapped);
        if d0.spec_store().coil_mapped(en) {
            assert(d2.spec_store().coils_view()[en] == true);
        }
        if good {
            assert(d1.spec_store().spec_coil(en) == false);
            assert(p2 == spec_sync_phase(RunPhase::Pending { enabled_at: t0 }, t0 as int, sd, dur));
            lemma_observed_start(p2, sd, dur, t0, deadline1, iv);
        }
    }
    let o1 = wait_until(dev, true, deadline1, cfg.interval_ms);
    let ghost d3 = *dev;
    proof {
        crate::poller::lemma_first_hit_range(
            mapped,
            p2,
            sd,
            dur,
            true,
            t0,
            deadline1,
            iv,
        );
        assert(d3.spec_now() <= deadline1 + iv);
    }
    match o1 {
        PollOutcome::DeadlineElapsed => {
            if cancel1 {
                let res = execute_early_stop(dev, cfg);
                proof {
                    let p1 = spec_sync_phase(
                        d3.spec_enable_react(false),
                        d3.spec_now() as int,
                        sd,
                        dur,
                    );
                    crate::poller::lemma_first_hit_range(
                        mapped,
                        p1,
                        sd,
                        dur,
                        false,
                        d3.spec_now(),
                        (d3.spec_now() + cfg.grace_timeout_ms) as u64,
                        iv,
                    );
                    if res is Ok {
                        // the grace hit observed the running signal low, so
                        // the synced phase cannot be active
                        assert(crate::poller::obs_at(mapped, p1, sd, dur, dev.spec_now())
                            == false);
                        if mapped {
                            assert(!phase_running_at(p1, sd, dur, dev.spec_now()));
                            assert(!(dev.spec_phase() is Active));
                        }
                        assert(dev.spec_store().spec_coil(d0.spec_addrs().running_coil) == false);
                    }
                    if good {
                        // the start was not observed before the cancellation
                        // instant, so the cancellation wins
                        assert(observed_start(t0, sd, iv) >= end_time);
                        assert(observed_completion(t0, sd, dur, iv) >= end_time);
                        // the device reacts to the falling edge by idling
                        assert(d2.spec_store().coil_mapped(en));
                        assert(d2.spec_store().coils_view()[en] == true);
                        assert(d3.spec_store().coils_view()[en]
                            == d2.spec_store().coils_view()[en]);
                        assert(d3.spec_enable_react(false) is Idle);
                        let t3 = d3.spec_now();
                        crate::poller::lemma_first_hit_here(
                            d3.running_mapped(),
                            RunPhase::Idle,
                            sd,
                            dur,
                            false,
                            t3,
                            (t3 + cfg.grace_timeout_ms) as u64,
                            iv,
                        );
                        assert(res == Ok::<(), ControlError>(()));
                        assert(dev.spec_phase() is Idle);
                        assert(dev.spec_store().coils_view()[d0.spec_addrs().running_coil]
                            == false);
                        // the cancellation fires at the first polling instant
                        // at or after the cancellation delay
                        assert(t3 == next_sample(t0 as int, iv as int, end_time as int));
                        lemma_next_sample_shift(0, iv as int, early_stop_ms as int, t0 as int);
                        lemma_next_sample_bounds(0, iv as int, early_stop_ms as int);
                        assert(dev.spec_now() == t0 + cancel_offset(early_stop_ms, iv));
                    }
                    if d0.spec_store().coil_mapped(en) {
                        assert(d3.spec_store().coil_mapped(en));
                    }
                }
                return match res {
                    Ok(()) => Ok(EarlyStopResult::Success),
                    Err(e) => Err(e),
                };
            } else {
                dev.set_enable(false);
                proof {
                    assert(d3.spec_store().coil_mapped(d0.spec_addrs().enable_coil)
                        == d0.spec_store().coil_mapped(d0.spec_addrs().enable_coil));
                }
                return Err(ControlError::TimedOut(WaitPhase::Start));
            }
        },
        PollOutcome::Reached => {},
    }
    let ghost t1 = d3.spec_now();
    let ghost p3 = spec_sync_phase(p2, t1 as int, sd, dur);
    let (deadline2, cancel2) = race_deadline(dev.now_ms(), cfg.completion_timeout_ms, end_time);
    proof {
        assert(d3.spec_phase() == p3);
        assert(d3.running_mapped() == mapped);
        if good {
            let th = observed_start(t0, sd, iv);
            assert(t1 == th);
            assert(th < end_time || !cancel1);
            assert(th < end_time);
            assert(p3 == RunPhase::Active { enabled_at: t0 });
            lemma_observed_completion(sd, dur, t0, th as u64, deadline2, iv);
        }
    }
    let o2 = wait_until(dev, false, deadline2, cfg.interval_ms);
    let ghost d4 = *dev;
    proof {
        crate::poller::lemma_first_hit_range(
            mapped,
            p3,
            sd,
            dur,
            false,
            t1,
            deadline2,
            iv,
        );
        assert(d4.spec_now() <= deadline2 + iv);
    }
    match o2 {
        PollOutcome::DeadlineElapsed => {
            if cancel2 {
                let res = execute_early_stop(dev, cfg);
                proof {
                    let p1 = spec_sync_phase(
                        d4.spec_enable_react(false),
                        d4.spec_now() as int,
                        sd,
                        dur,
                    );
                    crate::poller::lemma_first_hit_range(
                        mapped,
                        p1,
                        sd,
                        dur,
                        false,
                        d4.spec_now(),
                        (d4.spec_now() + cfg.grace_timeout_ms) as u64,
                        iv,
                    );
                    if res is Ok {
                        // the grace hit observed the running signal low, so
                        // the synced phase cannot be active
                        assert(crate::poller::obs_at(mapped, p1, sd, dur, dev.spec_now())
                            == false);
                        if mapped {
                            assert(!phase_running_at(p1, sd, dur, dev.spec_now()));
                            assert(!(dev.spec_phase() is Active));
                        }
                        assert(dev.spec_store().spec_coil(d0.spec_addrs().running_coil) == false);
                    }
                    if good {
                        // completion was not observed before the cancellation
                        // instant, so the cancellation wins
                        assert(observed_completion(t0, sd, dur, iv) >= end_time);
                        assert(d2.spec_store().coil_mapped(en));
                        assert(d2.spec_store().coils_view()[en] == true);
                        assert(d3.spec_store().coils_view()[en]
                            == d2.spec_store().coils_view()[en]);
                        assert(d3.spec_store().coil_mapped(en));
                        assert(d4.spec_store().coils_view()[en]
                            == d3.spec_store().coils_view()[en]);
                        assert(d4.spec_enable_react(false) is Idle);
                        let t4 = d4.spec_now();
                        crate::poller::lemma_first_hit_here(
                            d4.running_mapped(),
                            RunPhase::Idle,
                            sd,
                            dur,
                            false,
                            t4,
                            (t4 + cfg.grace_timeout_ms) as u64,
                            iv,
                        );
                        assert(res == Ok::<(), ControlError>(()));
                        assert(dev.spec_phase() is Idle);
                        assert(dev.spec_store().coils_view()[d0.spec_addrs().running_coil]
                            == false);
                        // the cancellation fires at the first polling instant
                        // at or after the cancellation delay
                        assert(t4 == next_sample(t1 as int, iv as int, end_time as int));
                        crate::poller::lemma_next_sample_chain(
                            t0 as int,
                            iv as int,
                            t0 + sd,
                            end_time as int,
                        );
                        assert(t4 == next_sample(t0 as int, iv as int, end_time as int));
                        lemma_next_sample_shift(0, iv as int, early_stop_ms as int, t0 as int);
                        lemma_next_sample_bounds(0, iv as int, early_stop_ms as int);
                        assert(dev.spec_now() == t0 + cancel_offset(early_stop_ms, iv));
                    }
                    if d0.spec_store().coil_mapped(en) {
                        assert(d4.spec_store().coil_mapped(en));
                    }
                }
                return match res {
                    Ok(()) => Ok(EarlyStopResult::Success),
                    Err(e) => Err(e),
                };
            } else {
                dev.set_enable(false);
                proof {
                    assert(d4.spec_store().coil_mapped(en) == d0.spec_store().coil_mapped(en));
                }
                return Err(ControlError::TimedOut(WaitPhase::Completion));
            }
        },
        PollOutcome::Reached => {},
    }
    dev.set_enable(false);
    let ghost d5 = *dev;
    proof {
        assert(d4.spec_store().coil_mapped(d0.spec_addrs().enable_coil)
            == d0.spec_store().coil_mapped(d0.spec_addrs().enable_coil));
        if good {
            let td = observed_completion(t0, sd, dur, iv);
            assert(d4.spec_now() == td);
            assert(td < end_time);
            assert(d4.spec_phase() is Idle);
            assert(d5.spec_phase() is Idle);
        }
    }
    dev.advance(cfg.settle_ms);
    proof {
        if d0.spec_store().coil_mapped(d0.spec_addrs().enable_coil) {
            assert(d5.spec_store().coil_mapped(d0.spec_addrs().enable_coil));
            assert(d5.spec_store().coils_view()[d0.spec_addrs().enable_coil] == false);
            assert(dev.spec_store().coils_view()[d0.spec_addrs().enable_coil]
                == d5.spec_store().coils_view()[d0.spec_addrs().enable_coil]);
        }
        if good {
            assert(dev.spec_phase() is Idle);
        }
    }
    if dev.read_running() {
        return Err(ControlError::PostconditionViolated);
    }
    Ok(EarlyStopResult::TooLate)
}

} // verus!
