//! The subroutine controller: completion, cancellation, timeouts and
//! fault detection against the simulated peripheral.

use srctl::{
    AddressMap, ControlError, DeviceTiming, EarlyStopResult, PollConfig, SharedModbusState,
    SimDevice, WaitPhase, execute_early_stop, race_deadline, sr_single, sr_single_early_stop,
};

fn fine_cfg() -> PollConfig {
    PollConfig {
        interval_ms: 1,
        start_timeout_ms: 1000,
        completion_timeout_ms: 60000,
        grace_timeout_ms: 1000,
        settle_ms: 0,
    }
}

fn device(start_delay_ms: u64, run_duration_ms: u64) -> SimDevice {
    SimDevice::new(
        AddressMap::shared_peripheral(),
        DeviceTiming::well_behaved(start_delay_ms, run_duration_ms),
    )
}

#[test]
fn completion_is_observed_after_the_running_window() {
    // running rises 5 ms after enable and falls 200 ms later
    let mut dev = device(5, 200);
    let cfg = fine_cfg();
    let r = sr_single(&mut dev, 3, &cfg);
    assert!(r.is_ok());
    // total wall time: the completion observation at 205 ms
    assert_eq!(dev.now_ms(), 205);
    assert_eq!(dev.read_enable(), false);
    assert_eq!(dev.read_running(), false);
    assert_eq!(dev.store().read_holding_registers(8, 1).unwrap(), vec![3]);
}

#[test]
fn completion_with_the_stock_configuration() {
    let mut dev = device(5, 200);
    let cfg = PollConfig::standard();
    let r = sr_single(&mut dev, 3, &cfg);
    assert!(r.is_ok());
    // 10 ms polls observe the start at 10 and the completion at 210;
    // the settle re-check adds 100 ms
    assert_eq!(dev.now_ms(), 310);
}

#[test]
fn cancellation_after_one_millisecond_stops_early() {
    let mut dev = device(5, 200);
    let cfg = fine_cfg();
    let r = sr_single_early_stop(&mut dev, 3, 1, &cfg);
    assert_eq!(r.unwrap(), EarlyStopResult::Success);
    assert_eq!(dev.read_enable(), false);
    assert_eq!(dev.read_running(), false);
    assert_eq!(dev.now_ms(), 1);
}

#[test]
fn cancellation_mid_run_stops_early() {
    let mut dev = device(5, 200);
    let cfg = fine_cfg();
    let r = sr_single_early_stop(&mut dev, 3, 100, &cfg);
    assert_eq!(r.unwrap(), EarlyStopResult::Success);
    assert_eq!(dev.read_enable(), false);
    assert_eq!(dev.read_running(), false);
    assert_eq!(dev.now_ms(), 100);
}

#[test]
fn cancellation_after_completion_is_too_late() {
    let mut dev = device(5, 200);
    let cfg = fine_cfg();
    let r = sr_single_early_stop(&mut dev, 3, 300, &cfg);
    assert_eq!(r.unwrap(), EarlyStopResult::TooLate);
    assert_eq!(dev.read_enable(), false);
    assert_eq!(dev.read_running(), false);
    assert_eq!(dev.now_ms(), 205);
}

#[test]
fn cancellation_at_the_observation_boundary_is_too_late() {
    let mut dev = device(5, 200);
    let cfg = fine_cfg();
    // completion is observed at 205; a delay one interval past natural
    // completion can no longer win the race
    let r = sr_single_early_stop(&mut dev, 3, 206, &cfg);
    assert_eq!(r.unwrap(), EarlyStopResult::TooLate);
}

#[test]
fn start_timeout_when_the_device_never_acknowledges() {
    // the start delay exceeds the start timeout
    let mut dev = device(2000, 200);
    let cfg = fine_cfg();
    let r = sr_single(&mut dev, 3, &cfg);
    assert_eq!(r.unwrap_err(), ControlError::TimedOut(WaitPhase::Start));
    assert_eq!(dev.read_enable(), false);
}

#[test]
fn a_start_timeout_preempts_a_later_cancellation() {
    // the start horizon (1 s) elapses strictly before the cancellation
    // instant (5 s), so the horizon governs and no cancellation fires
    let mut dev = device(2000, 200);
    let cfg = fine_cfg();
    let r = sr_single_early_stop(&mut dev, 3, 5000, &cfg);
    assert_eq!(r.unwrap_err(), ControlError::TimedOut(WaitPhase::Start));
    assert_eq!(dev.read_enable(), false);
}

#[test]
fn completion_timeout_when_the_run_outlasts_its_horizon() {
    let mut dev = device(5, 2000);
    let cfg = PollConfig {
        completion_timeout_ms: 50,
        ..fine_cfg()
    };
    let r = sr_single(&mut dev, 3, &cfg);
    assert_eq!(r.unwrap_err(), ControlError::TimedOut(WaitPhase::Completion));
    assert_eq!(dev.read_enable(), false);
}

#[test]
fn a_device_that_ignores_the_stop_violates_the_postcondition() {
    let timing = DeviceTiming {
        start_delay_ms: 5,
        run_duration_ms: 2000,
        honors_stop: false,
        restarts_after_stop: false,
    };
    let mut dev = SimDevice::new(AddressMap::shared_peripheral(), timing);
    let cfg = fine_cfg();
    // cancel at 50 ms; the device free-runs past the 1 s grace period
    let r = sr_single_early_stop(&mut dev, 3, 50, &cfg);
    assert_eq!(r.unwrap_err(), ControlError::PostconditionViolated);
}

#[test]
fn a_device_that_restarts_after_the_stop_is_caught_by_the_settle_check() {
    let timing = DeviceTiming {
        start_delay_ms: 5,
        run_duration_ms: 200,
        honors_stop: true,
        restarts_after_stop: true,
    };
    let mut dev = SimDevice::new(AddressMap::shared_peripheral(), timing);
    let cfg = PollConfig {
        settle_ms: 100,
        ..fine_cfg()
    };
    let r = sr_single(&mut dev, 3, &cfg);
    assert_eq!(r.unwrap_err(), ControlError::PostconditionViolated);
}

#[test]
fn an_unmapped_index_register_is_an_addressing_error() {
    let addrs = AddressMap {
        enable_coil: 8,
        running_coil: 9,
        index_register: 0,
    };
    // the seeded store maps the register at 8, not at 0
    let store = SharedModbusState::new();
    let mut dev = SimDevice::with_store(store, addrs, DeviceTiming::well_behaved(5, 200));
    let cfg = fine_cfg();
    match sr_single(&mut dev, 3, &cfg) {
        Err(ControlError::Addressing(e)) => assert_eq!(e.addr, 0),
        other => panic!("expected an addressing error, got {:?}", other),
    }
    assert_eq!(dev.read_enable(), false);
}

#[test]
fn an_unmapped_running_coil_times_out_cleanly() {
    let addrs = AddressMap {
        enable_coil: 8,
        running_coil: 20,
        index_register: 8,
    };
    let store = SharedModbusState::new();
    let mut dev = SimDevice::with_store(store, addrs, DeviceTiming::well_behaved(5, 200));
    let cfg = fine_cfg();
    let r = sr_single(&mut dev, 3, &cfg);
    assert_eq!(r.unwrap_err(), ControlError::TimedOut(WaitPhase::Start));
}

#[test]
fn execute_early_stop_idles_an_armed_device() {
    let mut dev = device(50, 200);
    let cfg = fine_cfg();
    dev.set_enable(true);
    dev.advance(10);
    let r = execute_early_stop(&mut dev, &cfg);
    assert!(r.is_ok());
    assert_eq!(dev.read_enable(), false);
    assert_eq!(dev.read_running(), false);
    assert_eq!(dev.now_ms(), 10);
}

#[test]
fn race_deadline_picks_the_nearer_bound() {
    assert_eq!(race_deadline(0, 1000, 5000), (1000, false));
    assert_eq!(race_deadline(0, 1000, 500), (500, true));
    assert_eq!(race_deadline(100, 1000, 1100), (1100, true));
    assert_eq!(race_deadline(100, 1000, 1101), (1100, false));
}
