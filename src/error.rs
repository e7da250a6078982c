//! Errors of the service core.

use vstd::prelude::*;
use crate::address::Address;
use crate::parser::ProtoError;

verus! {

/// What can go wrong in the service core.
#[derive(Debug, Clone)]
pub enum AirPodsError {
    /// The Bluetooth transport failed.
    Transport,
    DeviceNotFound(Address),
    DeviceNotConnected,
    DeviceNotPaired,
    InvalidPacket(ProtoError),
    FeatureNotSupported(String),
    ConnectionLost,
    ConnectionClosed,
    RequestTimeout,
    AlreadyConnecting,
    AdapterNotFound,
    AdapterNotAvailable,
    ManagerShutdown,
    ActorPanicked,
    Io,
    Config,
    Study,
}

/// Short description of an error.
pub open spec fn error_text(e: AirPodsError) -> Seq<char> {
    match e {
        AirPodsError::Transport => "Bluetooth error"@,
        AirPodsError::DeviceNotFound(_) => "Device not found"@,
        AirPodsError::DeviceNotConnected => "Device not connected"@,
        AirPodsError::DeviceNotPaired => "Device not paired"@,
        AirPodsError::InvalidPacket(_) => "Invalid packet"@,
        AirPodsError::FeatureNotSupported(_) => "Feature not supported"@,
        AirPodsError::ConnectionLost => "Connection lost"@,
        AirPodsError::ConnectionClosed => "Connection closed"@,
        AirPodsError::RequestTimeout => "Request timeout"@,
        AirPodsError::AlreadyConnecting => "Already connecting to device"@,
        AirPodsError::AdapterNotFound => "Adapter not found"@,
        AirPodsError::AdapterNotAvailable => "Adapter not available"@,
        AirPodsError::ManagerShutdown => "Manager has been shut down"@,
        AirPodsError::ActorPanicked => "Actor panicked"@,
        AirPodsError::Io => "I/O error"@,
        AirPodsError::Config => "Configuration error"@,
        AirPodsError::Study => "Battery study error"@,
    }
}

impl AirPodsError {
    /// Short description of the error.
    pub fn describe(&self) -> (r: &'static str)
        ensures
            r@ == error_text(*self),
            r@.len() > 0,
    {
        proof {
            reveal_strlit("Bluetooth error");
            reveal_strlit("Device not found");
            reveal_strlit("Device not connected");
            reveal_strlit("Device not paired");
            reveal_strlit("Invalid packet");
            reveal_strlit("Feature not supported");
            reveal_strlit("Connection lost");
            reveal_strlit("Connection closed");
            reveal_strlit("Request timeout");
            reveal_strlit("Already connecting to device");
            reveal_strlit("Adapter not found");
            reveal_strlit("Adapter not available");
            reveal_strlit("Manager has been shut down");
            reveal_strlit("Actor panicked");
            reveal_strlit("I/O error");
            reveal_strlit("Configuration error");
            reveal_strlit("Battery study error");
        }
        match self {
            AirPodsError::Transport => "Bluetooth error",
            AirPodsError::DeviceNotFound(_) => "Device not found",
            AirPodsError::DeviceNotConnected => "Device not connected",
            AirPodsError::DeviceNotPaired => "Device not paired",
            AirPodsError::InvalidPacket(_) => "Invalid packet",
            AirPodsError::FeatureNotSupported(_) => "Feature not supported",
            AirPodsError::ConnectionLost => "Connection lost",
            AirPodsError::ConnectionClosed => "Connection closed",
            AirPodsError::RequestTimeout => "Request timeout",
            AirPodsError::AlreadyConnecting => "Already connecting to device",
            AirPodsError::AdapterNotFound => "Adapter not found",
            AirPodsError::AdapterNotAvailable => "Adapter not available",
            AirPodsError::ManagerShutdown => "Manager has been shut down",
            AirPodsError::ActorPanicked => "Actor panicked",
            AirPodsError::Io => "I/O error",
            AirPodsError::Config => "Configuration error",
            AirPodsError::Study => "Battery study error",
        }
    }
}

} // verus!
