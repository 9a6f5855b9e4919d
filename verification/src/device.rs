//! A deterministic in-process peripheral: the addressable store, a
//! logical millisecond clock, and a model of how the device's running
//! signal answers the enable coil.
//!
//! The device is edge-triggered: a rising edge on the enable coil while
//! idle arms a run that raises the running signal `start_delay_ms` later
//! and lowers it again `run_duration_ms` after that. A falling edge
//! stops an armed or active run when the device honors stops; two flag
//! fields model firmware faults (ignoring stops, restarting after a
//! stop) so the controller's fault detection can be exercised.

use vstd::prelude::*;
use crate::addr::AddressMap;
use crate::store::{AddressError, SharedModbusState};

verus! {

/// Upper bound on any single timing span (delays, durations, timeouts).
pub const MAX_SPAN_MS: u64 = 0x8000_0000;

/// Upper bound on the logical clock.
pub const MAX_SIM_MS: u64 = 0x1000_0000_0000_0000;

/// How the simulated device answers the enable coil.
#[derive(Clone, Copy, Debug)]
pub struct DeviceTiming {
    /// Time from the enable rising edge to the running signal rising.
    pub start_delay_ms: u64,
    /// Time the running signal stays high before natural completion.
    pub run_duration_ms: u64,
    /// Whether a falling enable edge stops an armed or active run.
    pub honors_stop: bool,
    /// Firmware fault: a falling enable edge re-arms a run instead of
    /// stopping.
    pub restarts_after_stop: bool,
}

impl DeviceTiming {
    /// Spans small enough that no clock arithmetic can overflow.
    pub open spec fn wf(self) -> bool {
        &&& self.start_delay_ms <= MAX_SPAN_MS
        &&& self.run_duration_ms <= MAX_SPAN_MS
    }

    /// A device that honors stops and runs only on rising edges.
    pub fn well_behaved(start_delay_ms: u64, run_duration_ms: u64) -> (t: DeviceTiming)
        requires
            start_delay_ms <= MAX_SPAN_MS,
            run_duration_ms <= MAX_SPAN_MS,
        ensures
            t == (DeviceTiming {
                start_delay_ms,
                run_duration_ms,
                honors_stop: true,
                restarts_after_stop: false,
            }),
    {
        DeviceTiming { start_delay_ms, run_duration_ms, honors_stop: true, restarts_after_stop: false }
    }
}

/// Where the device is in a run.
#[derive(Clone, Copy, Debug)]
pub enum RunPhase {
    /// No run armed or active.
    Idle,
    /// A run was armed at `enabled_at`; the running signal is still low.
    Pending { enabled_at: u64 },
    /// The running signal is high for the run armed at `enabled_at`.
    Active { enabled_at: u64 },
}

/// The running signal the phase `p` shows at time `t` (for `t` at or
/// after the clock instant `p` was recorded at), absent further writes.
pub open spec fn phase_running_at(p: RunPhase, sd: u64, dur: u64, t: u64) -> bool {
    match p {
        RunPhase::Idle => false,
        RunPhase::Pending { enabled_at } => enabled_at + sd <= t < enabled_at + sd + dur,
        RunPhase::Active { enabled_at } => t < enabled_at + sd + dur,
    }
}

/// The phase brought up to date with the clock reading `now`: an armed
/// run becomes active once its start delay has elapsed, and any run is
/// over once its window has passed.
pub open spec fn spec_sync_phase(p: RunPhase, now: int, sd: u64, dur: u64) -> RunPhase {
    match p {
        RunPhase::Idle => RunPhase::Idle,
        RunPhase::Pending { enabled_at } => {
            if now >= enabled_at + sd + dur {
                RunPhase::Idle
            } else if now >= enabled_at + sd {
                RunPhase::Active { enabled_at }
            } else {
                p
            }
        },
        RunPhase::Active { enabled_at } => {
            if now >= enabled_at + sd + dur {
                RunPhase::Idle
            } else {
                p
            }
        },
    }
}

/// The deterministic simulated peripheral.
pub struct SimDevice {
    store: SharedModbusState,
    addrs: AddressMap,
    timing: DeviceTiming,
    now_ms: u64,
    phase: RunPhase,
}

impl SimDevice {
    /// The logical clock.
    pub closed spec fn spec_now(self) -> u64 {
        self.now_ms
    }

    /// The run phase.
    pub closed spec fn spec_phase(self) -> RunPhase {
        self.phase
    }

    /// The timing model.
    pub closed spec fn spec_timing(self) -> DeviceTiming {
        self.timing
    }

    /// The control-point offsets.
    pub closed spec fn spec_addrs(self) -> AddressMap {
        self.addrs
    }

    /// The backing store.
    pub closed spec fn spec_store(self) -> SharedModbusState {
        self.store
    }

    /// Shorthand for the start delay.
    pub open spec fn spec_sd(self) -> u64 {
        self.spec_timing().start_delay_ms
    }

    /// Shorthand for the run duration.
    pub open spec fn spec_dur(self) -> u64 {
        self.spec_timing().run_duration_ms
    }

    /// The phase is consistent with the clock.
    pub open spec fn phase_consistent(self) -> bool {
        &&& (self.spec_phase() matches RunPhase::Pending { enabled_at } ==> enabled_at
            <= self.spec_now() < enabled_at + self.spec_sd())
        &&& (self.spec_phase() matches RunPhase::Active { enabled_at } ==> enabled_at
            + self.spec_sd() <= self.spec_now() < enabled_at + self.spec_sd() + self.spec_dur())
    }

    /// A mapped running coil always shows whether the phase is active.
    pub open spec fn coil_consistent(self) -> bool {
        self.spec_store().coil_mapped(self.spec_addrs().running_coil) ==> self.spec_store().coils_view()[self.spec_addrs().running_coil] == (self.spec_phase() is Active)
    }

    /// Device well-formedness: distinct control coils, bounded clock and
    /// spans, phase and running coil in step with the clock.
    pub open spec fn wf(self) -> bool {
        &&& self.spec_addrs().wf()
        &&& self.spec_timing().wf()
        &&& self.spec_now() <= MAX_SIM_MS
        &&& self.phase_consistent()
        &&& self.coil_consistent()
    }

    /// The running signal at time `t >= self.spec_now()`, absent further
    /// writes.
    pub open spec fn running_at(self, t: u64) -> bool {
        phase_running_at(self.spec_phase(), self.spec_sd(), self.spec_dur(), t)
    }

    /// Whether the running coil is mapped, so that polls can see the
    /// device at all.
    pub open spec fn running_mapped(self) -> bool {
        self.spec_store().coil_mapped(self.spec_addrs().running_coil)
    }

    /// What a poll of the running signal at time `t >= self.spec_now()`
    /// observes, absent further writes: `false` whenever the running
    /// coil is unmapped.
    pub open spec fn observed_at(self, t: u64) -> bool {
        self.running_mapped() && self.running_at(t)
    }

    /// A fresh device at clock zero with enable and running coils low
    /// and the index register zero.
    pub fn new(addrs: AddressMap, timing: DeviceTiming) -> (d: SimDevice)
        requires
            addrs.wf(),
            timing.wf(),
        ensures
            d.wf(),
            d.spec_now() == 0,
            d.spec_phase() is Idle,
            d.spec_timing() == timing,
            d.spec_addrs() == addrs,
            d.spec_store().coils_view() == map![addrs.enable_coil => false, addrs.running_coil => false],
            d.spec_store().registers_view() == map![addrs.index_register => 0u16],
    {
        SimDevice {
            store: SharedModbusState::with_addresses(&addrs),
            addrs,
            timing,
            now_ms: 0,
            phase: RunPhase::Idle,
        }
    }

    /// A device at clock zero over a caller-provisioned store, for
    /// peripherals whose address layout differs from the defaults.
    pub fn with_store(store: SharedModbusState, addrs: AddressMap, timing: DeviceTiming) -> (d:
        SimDevice)
        requires
            addrs.wf(),
            timing.wf(),
            store.spec_coil(addrs.running_coil) == false,
        ensures
            d.wf(),
            d.spec_now() == 0,
            d.spec_phase() is Idle,
            d.spec_timing() == timing,
            d.spec_addrs() == addrs,
            d.spec_store() == store,
    {
        SimDevice { store, addrs, timing, now_ms: 0, phase: RunPhase::Idle }
    }

    /// Read the clock.
    pub fn now_ms(&self) -> (t: u64)
        ensures
            t == self.spec_now(),
    {
        self.now_ms
    }

    /// Poll the running signal through the store's coil policy.
    pub fn read_running(&self) -> (b: bool)
        requires
            self.wf(),
        ensures
            b == self.spec_store().spec_coil(self.spec_addrs().running_coil),
            b == self.observed_at(self.spec_now()),
    {
        self.store.read_coil(self.addrs.running_coil)
    }

    /// Read the enable coil through the store's coil policy.
    pub fn read_enable(&self) -> (b: bool)
        ensures
            b == self.spec_store().spec_coil(self.spec_addrs().enable_coil),
    {
        self.store.read_coil(self.addrs.enable_coil)
    }

    /// The backing store, for inspection.
    pub fn store(&self) -> (s: &SharedModbusState)
        ensures
            *s == self.spec_store(),
    {
        &self.store
    }

    /// Bring the phase and the running coil up to date with the clock.
    fn sync(&mut self)
        requires
            old(self).spec_addrs().wf(),
            old(self).spec_timing().wf(),
            old(self).spec_now() <= MAX_SIM_MS,
            old(self).spec_phase() matches RunPhase::Pending { enabled_at } ==> enabled_at <= old(self).spec_now(),
            old(self).spec_phase() matches RunPhase::Active { enabled_at } ==> enabled_at + old(self).spec_sd() <= old(self).spec_now(),
        ensures
            final(self).wf(),
            final(self).spec_now() == old(self).spec_now(),
            final(self).spec_timing() == old(self).spec_timing(),
            final(self).spec_addrs() == old(self).spec_addrs(),
            final(self).spec_store().registers_view() == old(self).spec_store().registers_view(),
            final(self).spec_store().coils_view().dom() == old(self).spec_store().coils_view().dom(),
            forall|a: u16|
                a != old(self).spec_addrs().running_coil && old(self).spec_store().coil_mapped(a)
                    ==> final(self).spec_store().coils_view()[a] == old(self).spec_store().coils_view()[a],
            final(self).spec_phase() == spec_sync_phase(
                old(self).spec_phase(),
                old(self).spec_now() as int,
                old(self).spec_sd(),
                old(self).spec_dur(),
            ),
            forall|t: u64|
                old(self).spec_now() <= t ==> final(self).running_at(t) == old(self).running_at(t),
    {
        let sd = self.timing.start_delay_ms;
        let dur = self.timing.run_duration_ms;
        match self.phase {
            RunPhase::Idle => {},
            RunPhase::Pending { enabled_at } => {
                if self.now_ms >= enabled_at + sd + dur {
                    self.phase = RunPhase::Idle;
                } else if self.now_ms >= enabled_at + sd {
                    self.phase = RunPhase::Active { enabled_at };
                }
            },
            RunPhase::Active { enabled_at } => {
                if self.now_ms >= enabled_at + sd + dur {
                    self.phase = RunPhase::Idle;
                }
            },
        }
        let act = match self.phase {
            RunPhase::Active { .. } => true,
            _ => false,
        };
        self.store.write_coil(self.addrs.running_coil, act);
    }

    /// Advance the clock by `ms`; the device's future behavior at any
    /// instant from the new clock reading on is unchanged.
    pub fn advance(&mut self, ms: u64)
        requires
            old(self).wf(),
            ms <= MAX_SPAN_MS,
            old(self).spec_now() + ms <= MAX_SIM_MS,
        ensures
            final(self).wf(),
            final(self).spec_now() == old(self).spec_now() + ms,
            final(self).spec_timing() == old(self).spec_timing(),
            final(self).spec_addrs() == old(self).spec_addrs(),
            final(self).spec_store().registers_view() == old(self).spec_store().registers_view(),
            final(self).spec_store().coils_view().dom() == old(self).spec_store().coils_view().dom(),
            forall|a: u16|
                a != old(self).spec_addrs().running_coil && old(self).spec_store().coil_mapped(a)
                    ==> final(self).spec_store().coils_view()[a] == old(self).spec_store().coils_view()[a],
            final(self).spec_phase() == spec_sync_phase(
                old(self).spec_phase(),
                old(self).spec_now() + ms,
                old(self).spec_sd(),
                old(self).spec_dur(),
            ),
            forall|t: u64|
                final(self).spec_now() <= t ==> final(self).running_at(t) == old(self).running_at(t),
            forall|t: u64|
                final(self).spec_now() <= t ==> final(self).observed_at(t) == old(self).observed_at(
                    t,
                ),
    {
        self.now_ms = self.now_ms + ms;
        self.sync();
    }

    /// The phase the device takes when the enable coil is driven to
    /// `value` at the current instant, before catching up with the clock.
    pub open spec fn spec_enable_react(self, value: bool) -> RunPhase {
        let was = self.spec_store().spec_coil(self.spec_addrs().enable_coil);
        let now_val = if self.spec_store().coil_mapped(self.spec_addrs().enable_coil) {
            value
        } else {
            was
        };
        if !was && now_val {
            if self.spec_phase() is Idle {
                RunPhase::Pending { enabled_at: self.spec_now() }
            } else {
                self.spec_phase()
            }
        } else if was && !now_val {
            if self.spec_timing().restarts_after_stop {
                RunPhase::Pending { enabled_at: self.spec_now() }
            } else if self.spec_timing().honors_stop {
                RunPhase::Idle
            } else {
                self.spec_phase()
            }
        } else {
            self.spec_phase()
        }
    }

    /// Drive the enable coil to `value` through the store's coil policy
    /// and let the device react: a rising edge while idle arms a run, a
    /// falling edge stops it (honoring the fault flags).
    pub fn set_enable(&mut self, value: bool)
        requires
            old(self).wf(),
        ensures
            final(self).wf(),
            final(self).spec_now() == old(self).spec_now(),
            final(self).spec_timing() == old(self).spec_timing(),
            final(self).spec_addrs() == old(self).spec_addrs(),
            final(self).spec_store().registers_view() == old(self).spec_store().registers_view(),
            final(self).spec_store().coils_view().dom() == old(self).spec_store().coils_view().dom(),
            forall|a: u16|
                a != old(self).spec_addrs().running_coil && a != old(self).spec_addrs().enable_coil
                    && old(self).spec_store().coil_mapped(a) ==> final(self).spec_store().coils_view()[a] == old(self).spec_store().coils_view()[a],
            old(self).spec_store().coil_mapped(old(self).spec_addrs().enable_coil) ==> final(self).spec_store().coils_view()[old(self).spec_addrs().enable_coil] == value,
            final(self).spec_phase() == spec_sync_phase(
                old(self).spec_enable_react(value),
                old(self).spec_now() as int,
                old(self).spec_sd(),
                old(self).spec_dur(),
            ),
    {
        let was = self.store.read_coil(self.addrs.enable_coil);
        self.store.write_coil(self.addrs.enable_coil, value);
        proof {
            assert(self.spec_store().coils_view().dom() =~= old(
                self,
            ).spec_store().coils_view().dom());
        }
        let now_val = self.store.read_coil(self.addrs.enable_coil);
        if !was && now_val {
            match self.phase {
                RunPhase::Idle => {
                    self.phase = RunPhase::Pending { enabled_at: self.now_ms };
                },
                _ => {},
            }
        } else if was && !now_val {
            if self.timing.restarts_after_stop {
                self.phase = RunPhase::Pending { enabled_at: self.now_ms };
            } else if self.timing.honors_stop {
                self.phase = RunPhase::Idle;
            }
        }
        let ghost mid = *self;
        proof {
            assert(mid.spec_phase() == old(self).spec_enable_react(value));
            assert(mid.spec_addrs() == old(self).spec_addrs());
            assert(old(self).spec_store().coil_mapped(old(self).spec_addrs().enable_coil)
                ==> mid.spec_store().coils_view()[old(self).spec_addrs().enable_coil] == value);
        }
        self.sync();
        proof {
            assert forall|a: u16|
                a != old(self).spec_addrs().running_coil && a != old(self).spec_addrs().enable_coil
                    && old(self).spec_store().coil_mapped(a) implies self.spec_store().coils_view()[a]
                == old(self).spec_store().coils_view()[a] by {
                assert(mid.spec_store().coil_mapped(a));
                assert(mid.spec_store().coils_view()[a] == old(self).spec_store().coils_view()[a]);
                assert(self.spec_store().coils_view()[a] == mid.spec_store().coils_view()[a]);
            }
            if old(self).spec_store().coil_mapped(old(self).spec_addrs().enable_coil) {
                assert(mid.spec_store().coil_mapped(old(self).spec_addrs().enable_coil));
                assert(mid.spec_store().coils_view()[old(self).spec_addrs().enable_coil] == value);
                assert(self.spec_store().coils_view()[old(self).spec_addrs().enable_coil]
                    == mid.spec_store().coils_view()[old(self).spec_addrs().enable_coil]);
            }
        }
    }

    /// Write the subroutine-index register; fails with an addressing
    /// error when the register is unmapped, as any register write does.
    pub fn set_index(&mut self, idx: u16) -> (r: Result<(), AddressError>)
        requires
            old(self).wf(),
        ensures
            final(self).wf(),
            final(self).spec_now() == old(self).spec_now(),
            final(self).spec_phase() == old(self).spec_phase(),
            final(self).spec_timing() == old(self).spec_timing(),
            final(self).spec_addrs() == old(self).spec_addrs(),
            final(self).spec_store().coils_view() == old(self).spec_store().coils_view(),
            match r {
                Ok(()) => old(self).spec_store().reg_mapped(old(self).spec_addrs().index_register)
                    && final(self).spec_store().registers_view() == old(self).spec_store().registers_view().insert(old(self).spec_addrs().index_register, idx),
                Err(e) => !old(self).spec_store().reg_mapped(old(self).spec_addrs().index_register)
                    && e.addr == old(self).spec_addrs().index_register && final(self).spec_store().registers_view() == old(self).spec_store().registers_view(),
            },
    {
        self.store.write_holding_register(self.addrs.index_register, idx)
    }
}

/// Catching a phase up with the clock twice is catching it up once with
/// the later reading.
pub proof fn lemma_sync_compose(p: RunPhase, t1: int, t2: int, sd: u64, dur: u64)
    requires
        t1 <= t2,
    ensures
        spec_sync_phase(spec_sync_phase(p, t1, sd, dur), t2, sd, dur) == spec_sync_phase(
            p,
            t2,
            sd,
            dur,
        ),
{
}

} // verus!
