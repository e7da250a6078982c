//! Service configuration as the core reads it; loading and saving the file
//! is the runtime's work.

use vstd::prelude::*;

verus! {

/// A device the user declared, recognised by address alone.
#[derive(Debug, Clone)]
pub struct KnownDevice {
    /// Address text, such as `AA:BB:CC:DD:EE:FF`.
    pub address: String,
    pub name: String,
}

/// Service configuration.
#[derive(Debug, Clone)]
pub struct Config {
    pub known_devices: Vec<KnownDevice>,
    /// Seconds between device polls.
    pub poll_interval: u64,
    pub connection_retry_count: u32,
    pub reconnect_delay_sec: u64,
    pub notification_retries: u32,
    pub log_filter: Option<String>,
}

pub fn default_poll_interval() -> (r: u64)
    ensures
        r == 30,
{
    30
}

pub fn default_retry_count() -> (r: u32)
    ensures
        r == 10,
{
    10
}

pub fn default_notification_retries() -> (r: u32)
    ensures
        r == 3,
{
    3
}

pub fn default_reconnect_delay() -> (r: u64)
    ensures
        r == 10,
{
    10
}

/// Index of the first known device with address text `a`.
pub open spec fn first_known(devs: Seq<KnownDevice>, a: Seq<char>, from: int) -> Option<int>
    decreases devs.len() - from,
{
    if from >= devs.len() || from < 0 {
        None
    } else if devs[from].address@ == a {
        Some(from)
    } else {
        first_known(devs, a, from + 1)
    }
}

impl Config {
    /// No known devices, no log filter, and the default intervals and
    /// counts.
    pub fn new() -> (r: Config)
        ensures
            r.known_devices@.len() == 0,
            r.poll_interval == 30,
            r.connection_retry_count == 10,
            r.reconnect_delay_sec == 10,
            r.notification_retries == 3,
            r.log_filter is None,
    {
        Config {
            known_devices: Vec::new(),
            poll_interval: default_poll_interval(),
            connection_retry_count: default_retry_count(),
            reconnect_delay_sec: default_reconnect_delay(),
            notification_retries: default_notification_retries(),
            log_filter: None,
        }
    }

    /// Name of the first known device with address text `address`.
    pub fn is_known_device(&self, address: &String) -> (r: Option<&String>)
        ensures
            first_known(self.known_devices@, address@, 0) is None ==> r is None,
            first_known(self.known_devices@, address@, 0) matches Some(i) ==> r == Some(&self.known_devices@[i].name),
    {
        let mut i: usize = 0;
        while i < self.known_devices.len()
            invariant
                i <= self.known_devices@.len(),
                first_known(self.known_devices@, address@, 0) == first_known(self.known_devices@, address@, i as int),
            decreases self.known_devices@.len() - i,
        {
            if self.known_devices[i].address.eq(address) {
                return Some(&self.known_devices[i].name);
            }
            i = i + 1;
        }
        None
    }
}

impl Default for Config {
    fn default() -> (r: Config)
        ensures
            r.known_devices@.len() == 0,
            r.poll_interval == 30,
            r.connection_retry_count == 10,
            r.reconnect_delay_sec == 10,
            r.notification_retries == 3,
            r.log_filter is None,
    {
        Config::new()
    }
}

} // verus!
