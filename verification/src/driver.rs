//! The scenario driver: sequences of controller invocations — full
//! sweeps over an index range, early-stop sweeps, the out-of-range
//! probe, and the exponentially-growing-delay probe that discovers the
//! device's minimum actuation time.

use vstd::prelude::*;
use crate::controller::{
    ControlError, EarlyStopResult, PollConfig, completion_offset, lemma_completion_offset,
    cancel_offset, lemma_observed_bounds, nominal, observed_completion, sr_single,
    sr_single_early_stop, timing_within,
};
use crate::store::AddressError;
use crate::device::{MAX_SIM_MS, MAX_SPAN_MS, SimDevice};
use crate::poller::span_left;

verus! {

/// Which invocation of a sweep failed, and how.
#[derive(Clone, Copy, Debug, PartialEq, Eq, Structural)]
pub struct SweepFailure {
    /// The subroutine index whose invocation failed.
    pub index: u16,
    /// Why it failed.
    pub error: ControlError,
}

/// A device that stays nominal from one controller invocation to the
/// next under the given configuration.
pub open spec fn steady(d: SimDevice, cfg: PollConfig) -> bool {
    nominal(d) && timing_within(d, cfg)
}

/// What a sweep does with a completion post-check anomaly (a device
/// observed running again after being told to stop). Transport,
/// addressing and timeout failures always abort the sweep.
#[derive(Clone, Copy, Debug, PartialEq, Eq, Structural)]
pub enum AnomalyPolicy {
    /// The anomaly aborts the whole sweep.
    FailSweep,
    /// The anomaly fails only the current index; the sweep goes on and
    /// reports every anomalous index.
    FailIndexOnly,
}

/// Execute every subroutine from 0 up to and including `max_idx`.
/// Timeouts and addressing failures abort the sweep; a completion
/// post-check anomaly aborts it or only marks the current index,
/// according to `policy`. On success the anomalous indices are
/// returned, oldest first.
pub fn run_up_to(dev: &mut SimDevice, max_idx: u16, cfg: &PollConfig, policy: AnomalyPolicy) -> (r:
    Result<Vec<SweepFailure>, SweepFailure>)
    requires
        old(dev).wf(),
        cfg.wf(),
        old(dev).spec_now() + (max_idx + 1) * 8 * MAX_SPAN_MS <= MAX_SIM_MS,
    ensures
        final(dev).wf(),
        final(dev).spec_timing() == old(dev).spec_timing(),
        final(dev).spec_addrs() == old(dev).spec_addrs(),
        final(dev).spec_store().coils_view().dom() == old(dev).spec_store().coils_view().dom(),
        final(dev).spec_store().registers_view().dom() == old(dev).spec_store().registers_view().dom(),
        final(dev).running_mapped() == old(dev).running_mapped(),
        old(dev).spec_store().coil_mapped(old(dev).spec_addrs().enable_coil) ==> final(dev).spec_store().coils_view()[old(dev).spec_addrs().enable_coil] == false,
        r matches Err(f) ==> f.index <= max_idx,
        r matches Ok(v) ==> forall|j: int|
            0 <= j < v@.len() ==> (#[trigger] v@[j]).error == ControlError::PostconditionViolated
                && v@[j].index <= max_idx,
        policy == AnomalyPolicy::FailSweep ==> (r matches Ok(v) ==> v@.len() == 0),
        steady(*old(dev), *cfg) ==> (r matches Ok(v) && v@.len() == 0) && steady(*final(dev), *cfg),
        steady(*old(dev), *cfg) ==> final(dev).spec_now() == old(dev).spec_now() + (max_idx + 1) * (
        completion_offset(old(dev).spec_sd(), old(dev).spec_dur(), cfg.interval_ms)
            + cfg.settle_ms),
        // an unmapped index register fails the very first invocation
        !old(dev).spec_store().reg_mapped(old(dev).spec_addrs().index_register) ==> r == Err::<Vec<SweepFailure>, SweepFailure>(SweepFailure { index: 0u16, error: ControlError::Addressing(AddressError { addr: old(dev).spec_addrs().index_register }) }) && final(dev).spec_store().registers_view() == old(dev).spec_store().registers_view(),
        // with a mapped index register no addressing failure can occur,
        // a completed sweep leaves the last index in the register, and a
        // failure leaves the index of the failing invocation there
        old(dev).spec_store().reg_mapped(old(dev).spec_addrs().index_register) ==> {
            &&& (r matches Err(f) ==> !(f.error matches ControlError::Addressing(_)))
            &&& (r matches Ok(v) ==> final(dev).spec_store().registers_view() == old(dev).spec_store().registers_view().insert(old(dev).spec_addrs().index_register, max_idx))
            &&& (r matches Err(f) ==> final(dev).spec_store().registers_view() == old(dev).spec_store().registers_view().insert(old(dev).spec_addrs().index_register, f.index))
        },
{
    let ghost d0 = *old(dev);
    let ghost k = d0.spec_addrs().index_register;
    let ghost per_run = completion_offset(d0.spec_sd(), d0.spec_dur(), cfg.interval_ms)
        + cfg.settle_ms;
    let mut anomalies: Vec<SweepFailure> = Vec::new();
    let mut i: u32 = 0;
    let last: u32 = max_idx as u32;
    loop
        invariant
            d0 == *old(dev),
            dev.wf(),
            cfg.wf(),
            i <= last + 1,
            last == max_idx as u32,
            per_run == completion_offset(d0.spec_sd(), d0.spec_dur(), cfg.interval_ms)
                + cfg.settle_ms,
            dev.spec_timing() == d0.spec_timing(),
            dev.spec_addrs() == d0.spec_addrs(),
            dev.spec_store().coils_view().dom() == d0.spec_store().coils_view().dom(),
            dev.spec_store().registers_view().dom() == d0.spec_store().registers_view().dom(),
            dev.running_mapped() == d0.running_mapped(),
            i > 0 && d0.spec_store().coil_mapped(d0.spec_addrs().enable_coil)
                ==> dev.spec_store().coils_view()[d0.spec_addrs().enable_coil] == false,
            dev.spec_now() <= d0.spec_now() + i * 8 * MAX_SPAN_MS,
            d0.spec_now() + (max_idx + 1) * 8 * MAX_SPAN_MS <= MAX_SIM_MS,
            forall|j: int|
                0 <= j < anomalies@.len() ==> (#[trigger] anomalies@[j]).error
                    == ControlError::PostconditionViolated && anomalies@[j].index <= max_idx,
            policy == AnomalyPolicy::FailSweep ==> anomalies@.len() == 0,
            steady(d0, *cfg) ==> steady(*dev, *cfg) && anomalies@.len() == 0,
            steady(d0, *cfg) ==> dev.spec_now() == d0.spec_now() + i * per_run,
            k == d0.spec_addrs().index_register,
            !d0.spec_store().reg_mapped(k) ==> i == 0,
            i == 0 ==> dev.spec_store().registers_view() == d0.spec_store().registers_view(),
            i > 0 ==> dev.spec_store().registers_view() == d0.spec_store().registers_view().insert(
                k,
                (i - 1) as u16,
            ),
        decreases last + 1 - i,
    {
        if i > last {
            proof {
                assert(i == last + 1);
                assert(i - 1 == max_idx as int);
            }
            return Ok(anomalies);
        }
        let ghost pre = *dev;
        let idx = i as u16;
        match sr_single(dev, idx, cfg) {
            Ok(()) => {},
            Err(ControlError::PostconditionViolated) => {
                proof {
                    assert(pre.spec_store().reg_mapped(k) == d0.spec_store().reg_mapped(k));
                    assert(d0.spec_store().reg_mapped(k));
                    if i > 0 {
                        assert(dev.spec_store().registers_view() =~= d0.spec_store().registers_view().insert(k, idx));
                    }
                }
                match policy {
                    AnomalyPolicy::FailSweep => {
                        proof {
                            if d0.spec_store().coil_mapped(d0.spec_addrs().enable_coil) {
                                assert(pre.spec_store().coil_mapped(d0.spec_addrs().enable_coil));
                            }
                        }
                        return Err(SweepFailure {
                            index: idx,
                            error: ControlError::PostconditionViolated,
                        });
                    },
                    AnomalyPolicy::FailIndexOnly => {
                        anomalies.push(SweepFailure {
                            index: idx,
                            error: ControlError::PostconditionViolated,
                        });
                    },
                }
            },
            Err(e) => {
                proof {
                    assert(pre.spec_store().reg_mapped(k) == d0.spec_store().reg_mapped(k));
                    if d0.spec_store().coil_mapped(d0.spec_addrs().enable_coil) {
                        assert(pre.spec_store().coil_mapped(d0.spec_addrs().enable_coil));
                    }
                    if d0.spec_store().reg_mapped(k) && i > 0 {
                        assert(dev.spec_store().registers_view() =~= d0.spec_store().registers_view().insert(k, idx));
                    }
                }
                return Err(SweepFailure { index: idx, error: e });
            },
        }
        proof {
            if d0.spec_store().coil_mapped(d0.spec_addrs().enable_coil) {
                assert(pre.spec_store().coil_mapped(d0.spec_addrs().enable_coil));
            }
            assert(dev.spec_store().registers_view().dom()
                =~= pre.spec_store().registers_view().dom());
            assert(pre.spec_store().reg_mapped(k) == d0.spec_store().reg_mapped(k));
            assert(d0.spec_store().reg_mapped(k));
            if i > 0 {
                assert(dev.spec_store().registers_view() =~= d0.spec_store().registers_view().insert(k, idx));
            }
            if steady(d0, *cfg) {
                assert(pre.spec_store().reg_mapped(d0.spec_addrs().index_register));
                assert(dev.spec_store().reg_mapped(d0.spec_addrs().index_register));
                assert(dev.spec_store().coil_mapped(d0.spec_addrs().enable_coil));
                assert(dev.spec_store().coils_view()[d0.spec_addrs().enable_coil] == false);
                assert(steady(*dev, *cfg));
                lemma_completion_offset(
                    pre.spec_now(),
                    d0.spec_sd(),
                    d0.spec_dur(),
                    cfg.interval_ms,
                );
                assert((i + 1) * per_run == i * per_run + per_run) by (nonlinear_arith);
            }
        }
        i += 1;
    }
}

/// Start every subroutine from 0 up to and including `max_idx` and
/// cancel each one `delay_ms` after it is started. Timeouts and
/// addressing failures abort the sweep; a stop-postcondition anomaly
/// aborts it or only marks the current index, according to `policy`.
/// On a steady device every run ends the same way — cancelled on the
/// polling grid when the delay is within the completion-observation
/// offset, observed complete otherwise — so the sweep's total duration
/// is pinned exactly.
pub fn run_early_stop_up_to(
    dev: &mut SimDevice,
    max_idx: u16,
    delay_ms: u64,
    cfg: &PollConfig,
    policy: AnomalyPolicy,
) -> (r: Result<Vec<SweepFailure>, SweepFailure>)
    requires
        old(dev).wf(),
        cfg.wf(),
        delay_ms <= MAX_SPAN_MS,
        old(dev).spec_now() + (max_idx + 1) * 9 * MAX_SPAN_MS <= MAX_SIM_MS,
    ensures
        final(dev).wf(),
        final(dev).spec_timing() == old(dev).spec_timing(),
        final(dev).spec_addrs() == old(dev).spec_addrs(),
        final(dev).spec_store().coils_view().dom() == old(dev).spec_store().coils_view().dom(),
        final(dev).spec_store().registers_view().dom() == old(dev).spec_store().registers_view().dom(),
        final(dev).running_mapped() == old(dev).running_mapped(),
        old(dev).spec_store().coil_mapped(old(dev).spec_addrs().enable_coil) ==> final(dev).spec_store().coils_view()[old(dev).spec_addrs().enable_coil] == false,
        r matches Err(f) ==> f.index <= max_idx,
        r matches Ok(v) ==> forall|j: int|
            0 <= j < v@.len() ==> (#[trigger] v@[j]).error == ControlError::PostconditionViolated
                && v@[j].index <= max_idx,
        policy == AnomalyPolicy::FailSweep ==> (r matches Ok(v) ==> v@.len() == 0),
        steady(*old(dev), *cfg) ==> (r matches Ok(v) && v@.len() == 0) && steady(*final(dev), *cfg),
        steady(*old(dev), *cfg) ==> final(dev).spec_now() == old(dev).spec_now() + (max_idx + 1) * (
        {
            let dstar = completion_offset(old(dev).spec_sd(), old(dev).spec_dur(), cfg.interval_ms);
            if delay_ms <= dstar {
                cancel_offset(delay_ms, cfg.interval_ms)
            } else {
                dstar + cfg.settle_ms
            }
        }),
        // an unmapped index register fails the very first invocation
        !old(dev).spec_store().reg_mapped(old(dev).spec_addrs().index_register) ==> r == Err::<Vec<SweepFailure>, SweepFailure>(SweepFailure { index: 0u16, error: ControlError::Addressing(AddressError { addr: old(dev).spec_addrs().index_register }) }) && final(dev).spec_store().registers_view() == old(dev).spec_store().registers_view(),
        // with a mapped index register no addressing failure can occur,
        // a completed sweep leaves the last index in the register, and a
        // failure leaves the index of the failing invocation there
        old(dev).spec_store().reg_mapped(old(dev).spec_addrs().index_register) ==> {
            &&& (r matches Err(f) ==> !(f.error matches ControlError::Addressing(_)))
            &&& (r matches Ok(v) ==> final(dev).spec_store().registers_view() == old(dev).spec_store().registers_view().insert(old(dev).spec_addrs().index_register, max_idx))
            &&& (r matches Err(f) ==> final(dev).spec_store().registers_view() == old(dev).spec_store().registers_view().insert(old(dev).spec_addrs().index_register, f.index))
        },
{
    let ghost d0 = *old(dev);
    let ghost k = d0.spec_addrs().index_register;
    let ghost per_run = ({
        let dstar = completion_offset(d0.spec_sd(), d0.spec_dur(), cfg.interval_ms);
        if delay_ms <= dstar {
            cancel_offset(delay_ms, cfg.interval_ms)
        } else {
            dstar + cfg.settle_ms
        }
    });
    let mut anomalies: Vec<SweepFailure> = Vec::new();
    let mut i: u32 = 0;
    let last: u32 = max_idx as u32;
    loop
        invariant
            d0 == *old(dev),
            dev.wf(),
            cfg.wf(),
            delay_ms <= MAX_SPAN_MS,
            i <= last + 1,
            last == max_idx as u32,
            per_run == ({
                let dstar = completion_offset(d0.spec_sd(), d0.spec_dur(), cfg.interval_ms);
                if delay_ms <= dstar {
                    cancel_offset(delay_ms, cfg.interval_ms)
                } else {
                    dstar + cfg.settle_ms
                }
            }),
            dev.spec_timing() == d0.spec_timing(),
            dev.spec_addrs() == d0.spec_addrs(),
            dev.spec_store().coils_view().dom() == d0.spec_store().coils_view().dom(),
            dev.spec_store().registers_view().dom() == d0.spec_store().registers_view().dom(),
            dev.running_mapped() == d0.running_mapped(),
            i > 0 && d0.spec_store().coil_mapped(d0.spec_addrs().enable_coil)
                ==> dev.spec_store().coils_view()[d0.spec_addrs().enable_coil] == false,
            dev.spec_now() <= d0.spec_now() + i * 9 * MAX_SPAN_MS,
            d0.spec_now() + (max_idx + 1) * 9 * MAX_SPAN_MS <= MAX_SIM_MS,
            forall|j: int|
                0 <= j < anomalies@.len() ==> (#[trigger] anomalies@[j]).error
                    == ControlError::PostconditionViolated && anomalies@[j].index <= max_idx,
            policy == AnomalyPolicy::FailSweep ==> anomalies@.len() == 0,
            steady(d0, *cfg) ==> steady(*dev, *cfg) && anomalies@.len() == 0,
            steady(d0, *cfg) ==> dev.spec_now() == d0.spec_now() + i * per_run,
            k == d0.spec_addrs().index_register,
            !d0.spec_store().reg_mapped(k) ==> i == 0,
            i == 0 ==> dev.spec_store().registers_view() == d0.spec_store().registers_view(),
            i > 0 ==> dev.spec_store().registers_view() == d0.spec_store().registers_view().insert(
                k,
                (i - 1) as u16,
            ),
        decreases last + 1 - i,
    {
        if i > last {
            proof {
                assert(i == last + 1);
                assert(i - 1 == max_idx as int);
            }
            return Ok(anomalies);
        }
        let ghost pre = *dev;
        let idx = i as u16;
        match sr_single_early_stop(dev, idx, delay_ms, cfg) {
            Ok(_) => {},
            Err(ControlError::PostconditionViolated) => {
                proof {
                    assert(pre.spec_store().reg_mapped(k) == d0.spec_store().reg_mapped(k));
                    assert(d0.spec_store().reg_mapped(k));
                    if i > 0 {
                        assert(dev.spec_store().registers_view() =~= d0.spec_store().registers_view().insert(k, idx));
                    }
                }
                match policy {
                    AnomalyPolicy::FailSweep => {
                        proof {
                            if d0.spec_store().coil_mapped(d0.spec_addrs().enable_coil) {
                                assert(pre.spec_store().coil_mapped(d0.spec_addrs().enable_coil));
                            }
                        }
                        return Err(SweepFailure {
                            index: idx,
                            error: ControlError::PostconditionViolated,
                        });
                    },
                    AnomalyPolicy::FailIndexOnly => {
                        anomalies.push(SweepFailure {
                            index: idx,
                            error: ControlError::PostconditionViolated,
                        });
                    },
                }
            },
            Err(e) => {
                proof {
                    assert(pre.spec_store().reg_mapped(k) == d0.spec_store().reg_mapped(k));
                    if d0.spec_store().coil_mapped(d0.spec_addrs().enable_coil) {
                        assert(pre.spec_store().coil_mapped(d0.spec_addrs().enable_coil));
                    }
                    if d0.spec_store().reg_mapped(k) && i > 0 {
                        assert(dev.spec_store().registers_view() =~= d0.spec_store().registers_view().insert(k, idx));
                    }
                }
                return Err(SweepFailure { index: idx, error: e });
            },
        }
        proof {
            if d0.spec_store().coil_mapped(d0.spec_addrs().enable_coil) {
                assert(pre.spec_store().coil_mapped(d0.spec_addrs().enable_coil));
            }
            assert(dev.spec_store().registers_view().dom()
                =~= pre.spec_store().registers_view().dom());
            assert(pre.spec_store().reg_mapped(k) == d0.spec_store().reg_mapped(k));
            assert(d0.spec_store().reg_mapped(k));
            if i > 0 {
                assert(dev.spec_store().registers_view() =~= d0.spec_store().registers_view().insert(k, idx));
            }
            if steady(d0, *cfg) {
                assert(pre.spec_store().reg_mapped(d0.spec_addrs().index_register));
                assert(dev.spec_store().reg_mapped(d0.spec_addrs().index_register));
                assert(dev.spec_store().coil_mapped(d0.spec_addrs().enable_coil));
                assert(dev.spec_store().coils_view()[d0.spec_addrs().enable_coil] == false);
                assert(steady(*dev, *cfg));
                lemma_completion_offset(
                    pre.spec_now(),
                    d0.spec_sd(),
                    d0.spec_dur(),
                    cfg.interval_ms,
                );
                assert((i + 1) * per_run == i * per_run + per_run) by (nonlinear_arith);
            }
        }
        i += 1;
    }
}

/// Probe the out-of-range subroutine index: the boundary index must
/// either run cleanly or fail cleanly, never with a coil addressing
/// error — coil accesses cannot fail at all, and the index write is
/// accepted whenever the index register is mapped.
pub fn run_out_of_bounds(dev: &mut SimDevice, cfg: &PollConfig) -> (r: Result<(), ControlError>)
    requires
        old(dev).wf(),
        cfg.wf(),
        old(dev).spec_now() + cfg.run_span() <= MAX_SIM_MS,
    ensures
        final(dev).wf(),
        final(dev).spec_timing() == old(dev).spec_timing(),
        final(dev).spec_addrs() == old(dev).spec_addrs(),
        final(dev).spec_store().coils_view().dom() == old(dev).spec_store().coils_view().dom(),
        final(dev).running_mapped() == old(dev).running_mapped(),
        // the probe really writes the boundary index
        old(dev).spec_store().reg_mapped(old(dev).spec_addrs().index_register) ==> final(dev).spec_store().registers_view() == old(dev).spec_store().registers_view().insert(old(dev).spec_addrs().index_register, 65535u16),
        !old(dev).spec_store().reg_mapped(old(dev).spec_addrs().index_register) ==> final(dev).spec_store().registers_view() == old(dev).spec_store().registers_view() && r == Err::<(), ControlError>(ControlError::Addressing(AddressError { addr: old(dev).spec_addrs().index_register })),
        old(dev).spec_store().reg_mapped(old(dev).spec_addrs().index_register) ==> !(r matches Err(
            ControlError::Addressing(e),
        )),
        // a stop-honoring, edge-triggered device with its control coils
        // mapped can only complete cleanly or time out cleanly
        (old(dev).spec_timing().honors_stop && !old(dev).spec_timing().restarts_after_stop
            && old(dev).spec_store().coil_mapped(old(dev).spec_addrs().enable_coil)
            && old(dev).spec_store().reg_mapped(old(dev).spec_addrs().index_register)) ==> (r is Ok
            || r matches Err(ControlError::TimedOut(_))),
        old(dev).spec_store().coil_mapped(old(dev).spec_addrs().enable_coil) ==> final(dev).spec_store().coils_view()[old(dev).spec_addrs().enable_coil] == false,
        r is Ok ==> final(dev).spec_store().spec_coil(old(dev).spec_addrs().running_coil) == false,
        old(dev).spec_now() <= final(dev).spec_now() <= old(dev).spec_now() + cfg.run_span(),
        (nominal(*old(dev)) && timing_within(*old(dev), *cfg)) ==> ({
            let tdone = observed_completion(
                old(dev).spec_now(),
                old(dev).spec_sd(),
                old(dev).spec_dur(),
                cfg.interval_ms,
            );
            &&& r == Ok::<(), ControlError>(())
            &&& final(dev).spec_now() == tdone + cfg.settle_ms
            &&& final(dev).spec_phase() is Idle
        }),
    {
    sr_single(dev, u16::MAX, cfg)
}

/// The delay at which the growing-delay probe stops, starting from a
/// last-used delay `d` and increment `i`: the delay grows by the
/// increment, the increment quadruples until it reaches two seconds,
/// and the probe stops at the first delay strictly greater than
/// `dstar`, the completion-observation offset.
pub open spec fn sweep_result(d: u64, i: u64, dstar: int) -> u64
    decreases span_left(d as int, dstar + 1)
    when 1 <= i <= 8000 && 0 <= dstar <= 0x1000_0000_0000 && d <= 0x2000_0000_0000
{
    let d2 = (d + i) as u64;
    let i2 = if i < 2000 {
        (i * 4) as u64
    } else {
        i
    };
    if d2 > dstar {
        d2
    } else {
        sweep_result(d2, i2, dstar)
    }
}

/// One step of the growing-delay schedule: the delay grows by the
/// current increment, and the increment quadruples until it reaches
/// two seconds.
pub fn next_sweep_delay(delay_ms: u64, increment_ms: u64) -> (r: (u64, u64))
    requires
        delay_ms + increment_ms <= MAX_SIM_MS,
        increment_ms <= MAX_SPAN_MS,
    ensures
        r.0 == delay_ms + increment_ms,
        r.1 == (if increment_ms < 2000 {
            increment_ms * 4
        } else {
            increment_ms as int
        }),
{
    let delay = delay_ms + increment_ms;
    let increment = if increment_ms < 2000 {
        increment_ms * 4
    } else {
        increment_ms
    };
    (delay, increment)
}

/// Probe the device's minimum actuation time: start the subroutine at
/// `idx` over and over with an exponentially growing cancellation
/// delay, until an invocation reports `TooLate` — the delay now
/// exceeds the time the subroutine needs to be observed complete — or
/// fails. The sweep always terminates: a cancellation can only succeed
/// while the delay is within the two wait horizons, and the delay
/// grows without bound.
pub fn run_increasing_delays(dev: &mut SimDevice, idx: u16, cfg: &PollConfig) -> (r: Result<
    u64,
    ControlError,
>)
    requires
        old(dev).wf(),
        cfg.wf(),
        old(dev).spec_now() + (cfg.start_timeout_ms + cfg.completion_timeout_ms + cfg.interval_ms
            + 2) * 12 * MAX_SPAN_MS <= MAX_SIM_MS,
    ensures
        final(dev).wf(),
        final(dev).spec_timing() == old(dev).spec_timing(),
        final(dev).spec_addrs() == old(dev).spec_addrs(),
        final(dev).spec_store().coils_view().dom() == old(dev).spec_store().coils_view().dom(),
        final(dev).spec_store().registers_view().dom() == old(dev).spec_store().registers_view().dom(),
        final(dev).running_mapped() == old(dev).running_mapped(),
        old(dev).spec_store().coil_mapped(old(dev).spec_addrs().enable_coil) ==> final(dev).spec_store().coils_view()[old(dev).spec_addrs().enable_coil] == false,
        steady(*old(dev), *cfg) ==> ({
            let dstar = completion_offset(old(dev).spec_sd(), old(dev).spec_dur(), cfg.interval_ms);
            &&& r == Ok::<u64, ControlError>(sweep_result(0, 1, dstar))
            &&& r matches Ok(d) && d > dstar
            &&& steady(*final(dev), *cfg)
        }),
{
    let ghost d0 = *old(dev);
    let ghost dstar = completion_offset(d0.spec_sd(), d0.spec_dur(), cfg.interval_ms);
    let mut delay: u64 = 0;
    let mut increment: u64 = 1;
    proof {
        if steady(d0, *cfg) {
            lemma_completion_offset(0, d0.spec_sd(), d0.spec_dur(), cfg.interval_ms);
            lemma_observed_bounds(0, d0.spec_sd(), d0.spec_dur(), cfg.interval_ms);
            assert(d0.spec_sd() + d0.spec_dur() <= dstar < d0.spec_sd() + d0.spec_dur()
                + cfg.interval_ms);
        }
    }
    loop
        invariant
            d0 == *old(dev),
            dev.wf(),
            cfg.wf(),
            dstar == completion_offset(d0.spec_sd(), d0.spec_dur(), cfg.interval_ms),
            1 <= increment <= 8000,
            delay <= cfg.start_timeout_ms + cfg.completion_timeout_ms + cfg.interval_ms,
            dev.spec_timing() == d0.spec_timing(),
            dev.spec_addrs() == d0.spec_addrs(),
            dev.spec_store().coils_view().dom() == d0.spec_store().coils_view().dom(),
            dev.spec_store().registers_view().dom() == d0.spec_store().registers_view().dom(),
            dev.running_mapped() == d0.running_mapped(),
            dev.spec_now() <= d0.spec_now() + delay * 12 * MAX_SPAN_MS,
            d0.spec_now() + (cfg.start_timeout_ms + cfg.completion_timeout_ms + cfg.interval_ms
                + 2) * 12 * MAX_SPAN_MS <= MAX_SIM_MS,
            steady(d0, *cfg) ==> {
                &&& steady(*dev, *cfg)
                &&& d0.spec_sd() + d0.spec_dur() <= dstar < d0.spec_sd() + d0.spec_dur()
                    + cfg.interval_ms
                &&& delay <= dstar
                &&& sweep_result(delay, increment, dstar) == sweep_result(0, 1, dstar)
            },
        decreases span_left(
            delay as int,
            cfg.start_timeout_ms + cfg.completion_timeout_ms + cfg.interval_ms + 1,
        ),
    {
        let ghost delay_pre = delay;
        let ghost inc_pre = increment;
        let (d2, i2) = next_sweep_delay(delay, increment);
        delay = d2;
        increment = i2;
        let ghost pre = *dev;
        let res = sr_single_early_stop(dev, idx, delay, cfg);
        proof {
            if d0.spec_store().coil_mapped(d0.spec_addrs().enable_coil) {
                assert(pre.spec_store().coil_mapped(d0.spec_addrs().enable_coil));
            }
            assert(dev.spec_store().registers_view().dom()
                =~= pre.spec_store().registers_view().dom());
            if steady(d0, *cfg) {
                lemma_completion_offset(
                    pre.spec_now(),
                    d0.spec_sd(),
                    d0.spec_dur(),
                    cfg.interval_ms,
                );
                assert(pre.spec_store().reg_mapped(d0.spec_addrs().index_register));
                assert(dev.spec_store().reg_mapped(d0.spec_addrs().index_register));
                assert(dev.spec_store().coil_mapped(d0.spec_addrs().enable_coil));
                assert(dev.spec_store().coils_view()[d0.spec_addrs().enable_coil] == false);
                if delay > dstar {
                    assert(res == Ok::<EarlyStopResult, ControlError>(EarlyStopResult::TooLate));
                } else {
                    assert(res == Ok::<EarlyStopResult, ControlError>(EarlyStopResult::Success));
                }
                assert(sweep_result(delay_pre, inc_pre, dstar) == (if delay > dstar {
                    delay
                } else {
                    sweep_result(delay, increment, dstar)
                }));
            }
        }
        match res {
            Ok(EarlyStopResult::TooLate) => {
                return Ok(delay);
            },
            Ok(EarlyStopResult::Success) => {},
            Err(e) => {
                return Err(e);
            },
        }
    }
}

} // verus!
