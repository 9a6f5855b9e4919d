//! Verified control logic for driving indexed subroutines on a remote
//! actuator over a coil/register-addressed interface.
//!
//! The crate models the addressable device memory (sparse coil and
//! register namespaces), a deterministic simulated peripheral with a
//! logical millisecond clock, the polling primitive that waits for a
//! boolean observation, and the subroutine start/monitor/early-stop
//! controller together with the scenario driver built on top of it.

pub mod addr;
pub mod controller;
pub mod device;
pub mod driver;
pub mod poller;
pub mod service;
pub mod store;

pub use addr::AddressMap;
pub use controller::{
    ControlError, EarlyStopResult, PollConfig, WaitPhase, execute_early_stop, race_deadline,
    sr_single, sr_single_early_stop,
};
pub use driver::{AnomalyPolicy, SweepFailure, next_sweep_delay, run_early_stop_up_to, run_increasing_delays, run_out_of_bounds, run_up_to};
pub use service::{ExampleService, ServiceException, ServiceRequest, ServiceResponse};
pub use device::{DeviceTiming, RunPhase, SimDevice};
pub use poller::{PollOutcome, PollStep, WaitForRunningResult, poll_step, wait_for_running, wait_until};
pub use store::{AddressError, SharedModbusState};
