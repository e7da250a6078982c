//! Core of a session service for wireless earbuds: control-channel codec,
//! device state, battery drain estimation and the connection manager's
//! state machine.

pub mod protocol;
pub mod parser;
pub mod history;
pub mod study;
pub mod tracker;
pub mod address;
pub mod error;
pub mod manager;
pub mod recognition;
pub mod event;
pub mod device;
pub mod hooks;
pub mod config;
pub mod session;
