//! State-change events published to consumers.

use vstd::prelude::*;
use crate::protocol::{BatteryInfo, EarDetectionStatus, NoiseControlMode};

verus! {

/// A change that consumers are told of, tagged by the publisher with the
/// device it concerns.
#[derive(Debug, Clone)]
pub enum AirPodsEvent {
    DeviceConnected,
    DeviceDisconnected,
    DeviceError,
    BatteryUpdated(BatteryInfo),
    NoiseControlChanged(NoiseControlMode),
    EarDetectionChanged(EarDetectionStatus),
    DeviceNameChanged(String),
}

} // verus!
