//! The polling primitive against the simulated peripheral.

use srctl::{
    AddressMap, DeviceTiming, PollOutcome, SimDevice, WaitForRunningResult, wait_for_running,
    wait_until,
};

fn device(start_delay_ms: u64, run_duration_ms: u64) -> SimDevice {
    SimDevice::new(
        AddressMap::shared_peripheral(),
        DeviceTiming::well_behaved(start_delay_ms, run_duration_ms),
    )
}

#[test]
fn reached_at_the_first_observation_of_the_target() {
    let mut dev = device(5, 200);
    dev.set_enable(true);
    let r = wait_until(&mut dev, true, 1000, 1);
    assert_eq!(r, PollOutcome::Reached);
    assert_eq!(dev.now_ms(), 5);
    assert!(dev.read_running());
}

#[test]
fn deadline_elapses_before_the_signal_rises() {
    let mut dev = device(5, 200);
    dev.set_enable(true);
    let r = wait_until(&mut dev, true, 3, 1);
    assert_eq!(r, PollOutcome::DeadlineElapsed);
    // the wait returns no later than the deadline plus one interval
    assert_eq!(dev.now_ms(), 3);
}

#[test]
fn deadline_in_the_past_returns_immediately() {
    let mut dev = device(5, 200);
    dev.advance(50);
    let r = wait_until(&mut dev, true, 10, 1);
    assert_eq!(r, PollOutcome::DeadlineElapsed);
    assert_eq!(dev.now_ms(), 50);
}

#[test]
fn coarse_polling_lands_past_the_deadline() {
    let mut dev = device(5, 200);
    dev.set_enable(true);
    // samples at 0 and 7: the second observes the signal high
    let r = wait_until(&mut dev, true, 1000, 7);
    assert_eq!(r, PollOutcome::Reached);
    assert_eq!(dev.now_ms(), 7);
}

#[test]
fn waiting_for_a_fall_sees_natural_completion() {
    let mut dev = device(5, 200);
    dev.set_enable(true);
    assert_eq!(wait_until(&mut dev, true, 1000, 1), PollOutcome::Reached);
    assert_eq!(wait_until(&mut dev, false, 70000, 1), PollOutcome::Reached);
    assert_eq!(dev.now_ms(), 205);
    assert!(!dev.read_running());
}

#[test]
fn wait_for_running_reports_a_timeout() {
    let mut dev = device(500, 200);
    dev.set_enable(true);
    let r = wait_for_running(&mut dev, true, 100, 10);
    assert_eq!(r, WaitForRunningResult::Timeout);
    let r = wait_for_running(&mut dev, true, 1000, 10);
    assert_eq!(r, WaitForRunningResult::Success);
}
