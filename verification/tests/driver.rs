//! The scenario driver: sweeps, the out-of-range probe and the
//! growing-delay probe.

use srctl::{
    AddressMap, AnomalyPolicy, ControlError, DeviceTiming, PollConfig, SharedModbusState,
    SimDevice, WaitPhase, run_early_stop_up_to, run_increasing_delays, run_out_of_bounds,
    run_up_to,
};

fn fine_cfg() -> PollConfig {
    PollConfig {
        interval_ms: 1,
        start_timeout_ms: 1000,
        completion_timeout_ms: 60000,
        grace_timeout_ms: 1000,
        settle_ms: 0,
    }
}

fn device(start_delay_ms: u64, run_duration_ms: u64) -> SimDevice {
    SimDevice::new(
        AddressMap::shared_peripheral(),
        DeviceTiming::well_behaved(start_delay_ms, run_duration_ms),
    )
}

#[test]
fn a_full_sweep_runs_every_index() {
    let mut dev = device(5, 200);
    let cfg = fine_cfg();
    let r = run_up_to(&mut dev, 3, &cfg, AnomalyPolicy::FailSweep);
    assert_eq!(r.unwrap(), vec![]);
    // four runs of 205 ms each
    assert_eq!(dev.now_ms(), 4 * 205);
    assert_eq!(dev.store().read_holding_registers(8, 1).unwrap(), vec![3]);
    assert_eq!(dev.read_enable(), false);
}

#[test]
fn a_sweep_aborts_at_the_first_failure() {
    let mut dev = device(2000, 200);
    let cfg = fine_cfg();
    let f = run_up_to(&mut dev, 5, &cfg, AnomalyPolicy::FailIndexOnly).unwrap_err();
    assert_eq!(f.index, 0);
    assert_eq!(f.error, ControlError::TimedOut(WaitPhase::Start));
}

#[test]
fn an_early_stop_sweep_cancels_every_index() {
    let mut dev = device(5, 200);
    let cfg = fine_cfg();
    let r = run_early_stop_up_to(&mut dev, 3, 1, &cfg, AnomalyPolicy::FailSweep);
    assert_eq!(r.unwrap(), vec![]);
    assert_eq!(dev.read_enable(), false);
    assert_eq!(dev.read_running(), false);
    // each cancellation fires at the first polling instant at or after
    // the 1 ms delay, so four cancelled runs take four milliseconds
    assert_eq!(dev.now_ms(), 4);
    // the last index of the sweep is left in the index register
    assert_eq!(dev.store().read_holding_registers(8, 1).unwrap(), vec![3]);
}

#[test]
fn a_sweep_over_an_unmapped_index_register_fails_at_index_zero() {
    let addrs = AddressMap {
        enable_coil: 8,
        running_coil: 9,
        index_register: 0,
    };
    let store = SharedModbusState::new();
    let mut dev = SimDevice::with_store(store, addrs, DeviceTiming::well_behaved(5, 200));
    let cfg = fine_cfg();
    let f = run_up_to(&mut dev, 4, &cfg, AnomalyPolicy::FailSweep).unwrap_err();
    assert_eq!(f.index, 0);
    match f.error {
        ControlError::Addressing(e) => assert_eq!(e.addr, 0),
        other => panic!("expected an addressing error, got {:?}", other),
    }
}

#[test]
fn the_out_of_range_index_runs_without_an_addressing_error() {
    let mut dev = device(5, 200);
    let cfg = fine_cfg();
    let r = run_out_of_bounds(&mut dev, &cfg);
    assert!(r.is_ok());
    assert_eq!(
        dev.store().read_holding_registers(8, 1).unwrap(),
        vec![u16::MAX]
    );
}

#[test]
fn the_growing_delay_probe_finds_the_first_late_delay() {
    // true completion time 50 ms: observed complete exactly 50 ms after
    // arming under 1 ms polling
    let mut dev = device(5, 45);
    let cfg = fine_cfg();
    let r = run_increasing_delays(&mut dev, 3, &cfg);
    // delays grow 1, 5, 21, 85, ...: the first delay past 50 ms is 85
    assert_eq!(r.unwrap(), 85);
    assert_eq!(dev.read_enable(), false);
    assert_eq!(dev.read_running(), false);
}

#[test]
fn the_growing_delay_probe_reports_a_failing_device() {
    let timing = DeviceTiming {
        start_delay_ms: 5,
        run_duration_ms: 5000,
        honors_stop: false,
        restarts_after_stop: false,
    };
    let mut dev = SimDevice::new(AddressMap::shared_peripheral(), timing);
    let cfg = fine_cfg();
    let r = run_increasing_delays(&mut dev, 3, &cfg);
    assert_eq!(r.unwrap_err(), ControlError::PostconditionViolated);
}

fn restarting_device() -> SimDevice {
    let timing = DeviceTiming {
        start_delay_ms: 5,
        run_duration_ms: 200,
        honors_stop: true,
        restarts_after_stop: true,
    };
    SimDevice::new(AddressMap::shared_peripheral(), timing)
}

#[test]
fn an_anomaly_can_fail_the_whole_sweep() {
    let mut dev = restarting_device();
    let cfg = PollConfig {
        settle_ms: 100,
        ..fine_cfg()
    };
    let f = run_up_to(&mut dev, 2, &cfg, AnomalyPolicy::FailSweep).unwrap_err();
    assert_eq!(f.index, 0);
    assert_eq!(f.error, ControlError::PostconditionViolated);
    // the failing invocation's index is left in the index register
    assert_eq!(dev.store().read_holding_registers(8, 1).unwrap(), vec![0]);
}

#[test]
fn an_anomaly_can_fail_only_its_index() {
    let mut dev = restarting_device();
    let cfg = PollConfig {
        settle_ms: 100,
        ..fine_cfg()
    };
    let anomalies = run_up_to(&mut dev, 2, &cfg, AnomalyPolicy::FailIndexOnly).unwrap();
    let indices: Vec<u16> = anomalies.iter().map(|f| f.index).collect();
    assert_eq!(indices, vec![0, 1, 2]);
    for f in &anomalies {
        assert_eq!(f.error, ControlError::PostconditionViolated);
    }
}
