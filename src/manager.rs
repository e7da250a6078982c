//! Decision core of the connection manager.
//!
//! The manager owns the inventories of adapters and devices and the set of
//! devices with a connection attempt in flight. Each inbox command is a
//! method that updates that state and returns the actions the runtime must
//! carry out (spawning tasks, timers, events); the runtime reports what
//! happened through further commands.

use vstd::prelude::*;
use crate::address::Address;
use crate::error::AirPodsError;
use crate::event::AirPodsEvent;
use rand::Rng;

verus! {

/// Largest retry delay before jitter, in seconds.
pub const MAX_RETRY_DELAY_SECS: u64 = 120;

/// Condition of an adapter.
#[derive(Debug, Clone)]
pub enum AdapterState {
    Active,
    Lost,
    Failed(String),
}

/// An adapter known to the manager.
#[derive(Debug)]
pub struct AdapterEntry {
    pub name: String,
    pub state: AdapterState,
    pub retry_count: u32,
    /// An event monitor task runs for it.
    pub monitoring: bool,
}

/// Link state that the host Bluetooth stack reports.
#[derive(Debug, Clone, Copy, PartialEq, Eq, Structural)]
pub enum BluetoothState {
    Connected,
    Disconnected,
}

/// Why a control session failed.
#[derive(Debug, Clone, Copy, PartialEq, Eq, Structural)]
pub enum FailReason {
    AdapterLost,
}

/// State of the control session with a device.
#[derive(Debug, Clone, Copy, PartialEq, Eq, Structural)]
pub enum AapState {
    Disconnected,
    Connecting,
    Connected,
    Failed(FailReason),
    WaitingToReconnect,
}

/// A device known to the manager.
#[derive(Debug)]
pub struct DeviceEntry {
    pub address: Address,
    pub bluetooth_state: BluetoothState,
    pub aap_state: AapState,
    pub adapter_name: String,
    pub retry_count: u32,
    pub last_error: Option<String>,
    /// A session task runs for it.
    pub has_task: bool,
}

/// Work that the runtime performs for the manager.
#[derive(Debug, Clone)]
pub enum Action {
    /// Publish an event for a device.
    Emit(Address, AirPodsEvent),
    /// Start the event monitor of an adapter.
    StartMonitor(String),
    /// Abort the event monitor of an adapter.
    StopMonitor(String),
    /// Look for connected, recognised devices on an adapter.
    CheckConnectedDevices(String),
    /// Open and power an adapter that is not known yet.
    InitializeAdapter(String),
    /// After the backoff for the retry count, report the adapter again.
    ScheduleAdapterRecovery(String, u32),
    /// Abort a device's session task.
    AbortSession(Address),
    /// Spawn the session task of a device.
    SpawnSession(Address),
    /// After the backoff for the retry count, ask for a session again.
    ScheduleSessionRetry(Address, u32),
    /// Ask whether the device is paired, then establish a session.
    TryEstablish(Address),
    /// A connected device that is not known: check whether it is supported.
    ProbeNewDevice(Address),
    /// Tear down a device's live session.
    DisconnectDevice(Address),
}

/// Inventory of the manager.
#[derive(Debug)]
pub struct ManagerState {
    pub adapters: Vec<AdapterEntry>,
    pub devices: Vec<DeviceEntry>,
    /// Devices with a session attempt in flight.
    pub connecting: Vec<Address>,
}

/// Index of the device with address `a`.
pub open spec fn dev_index(devs: Seq<DeviceEntry>, a: Address) -> Option<int> {
    if exists|i: int| 0 <= i < devs.len() && devs[i].address == a {
        Some(choose|i: int| 0 <= i < devs.len() && devs[i].address == a)
    } else {
        None
    }
}

/// Index of the adapter named `n`.
pub open spec fn adapter_index(ads: Seq<AdapterEntry>, n: Seq<char>) -> Option<int> {
    if exists|i: int| 0 <= i < ads.len() && ads[i].name@ == n {
        Some(choose|i: int| 0 <= i < ads.len() && ads[i].name@ == n)
    } else {
        None
    }
}

/// Outcome of a request for a session.
pub open spec fn establish_outcome(s: ManagerState, a: Address, paired: bool) -> Result<(), AirPodsError> {
    if s.connecting@.contains(a) {
        Err(AirPodsError::AlreadyConnecting)
    } else {
        match dev_index(s.devices@, a) {
            None => Err(AirPodsError::DeviceNotFound(a)),
            Some(i) => {
                let d = s.devices@[i];
                match adapter_index(s.adapters@, d.adapter_name@) {
                    None => Err(AirPodsError::AdapterNotFound),
                    Some(j) => if !(s.adapters@[j].state is Active) {
                        Err(AirPodsError::AdapterNotAvailable)
                    } else if d.bluetooth_state != BluetoothState::Connected {
                        Err(AirPodsError::DeviceNotConnected)
                    } else if !paired {
                        Err(AirPodsError::DeviceNotPaired)
                    } else {
                        Ok(())
                    },
                }
            },
        }
    }
}

/// A device after an adapter loss.
pub open spec fn failed_entry(d: DeviceEntry) -> DeviceEntry {
    DeviceEntry { aap_state: AapState::Failed(FailReason::AdapterLost), has_task: false, ..d }
}

/// Actions for the devices of a lost adapter, in inventory order.
pub open spec fn lost_actions(devs: Seq<DeviceEntry>, name: Seq<char>) -> Seq<Action>
    decreases devs.len(),
{
    if devs.len() == 0 {
        Seq::empty()
    } else {
        let d = devs.last();
        let mine: Seq<Action> = if d.adapter_name@ == name {
            (if d.has_task { seq![Action::AbortSession(d.address)] } else { Seq::empty() }) + seq![
                Action::Emit(d.address, AirPodsEvent::DeviceError),
            ]
        } else {
            Seq::empty()
        };
        lost_actions(devs.drop_last(), name) + mine
    }
}

/// Connecting set after adapter `name` is lost: without the addresses of
/// its devices.
pub open spec fn drop_adapter_devices(conn: Seq<Address>, devs: Seq<DeviceEntry>, name: Seq<char>) -> Seq<Address>
    decreases devs.len(),
{
    if devs.len() == 0 {
        conn
    } else {
        let c = drop_adapter_devices(conn, devs.drop_last(), name);
        if devs.last().adapter_name@ == name {
            without(c, devs.last().address)
        } else {
            c
        }
    }
}

/// A device on adapter `name` whose session should be retried when the
/// adapter comes back.
pub open spec fn wants_retry(d: DeviceEntry, name: Seq<char>) -> bool {
    d.adapter_name@ == name && d.bluetooth_state == BluetoothState::Connected && (d.aap_state is Failed
        || d.aap_state is Disconnected)
}

/// Devices to retry when adapter `name` comes back, in inventory order.
pub open spec fn retry_targets(devs: Seq<DeviceEntry>, name: Seq<char>) -> Seq<Action>
    decreases devs.len(),
{
    if devs.len() == 0 {
        Seq::empty()
    } else {
        let d = devs.last();
        retry_targets(devs.drop_last(), name) + (if wants_retry(d, name) {
            seq![Action::TryEstablish(d.address)]
        } else {
            Seq::empty()
        })
    }
}

/// Saturating increment.
pub open spec fn bump(n: u32) -> u32 {
    if n < u32::MAX { (n + 1) as u32 } else { n }
}

/// Retry delay before jitter, in seconds: `2 * 2^min(k, 4)`, at most
/// `MAX_RETRY_DELAY_SECS`.
pub open spec fn retry_base_secs(k: u32) -> int {
    let e: nat = if k < 4 { k as nat } else { 4 };
    let d = 2 * vstd::arithmetic::power2::pow2(e);
    if d > MAX_RETRY_DELAY_SECS { MAX_RETRY_DELAY_SECS as int } else { d as int }
}

/// Retry delay in milliseconds for retry count `k` and a jitter below one
/// second.
pub fn retry_delay_ms(retry_count: u32, jitter_ms: u64) -> (r: u64)
    requires
        jitter_ms < 1000,
    ensures
        r == retry_base_secs(retry_count) * 1000 + jitter_ms,
{
    let e: u32 = if retry_count < 4 { retry_count } else { 4 };
    let mut d: u64 = 2;
    let mut i: u32 = 0;
    proof {
        vstd::arithmetic::power2::lemma2_to64();
    }
    while i < e
        invariant
            i <= e <= 4,
            d == 2 * vstd::arithmetic::power2::pow2(i as nat),
        decreases e - i,
    {
        proof {
            vstd::arithmetic::power2::lemma_pow2_unfold((i + 1) as nat);
            vstd::arithmetic::power2::lemma2_to64();
            vstd::arithmetic::power2::lemma_pow2_strictly_increases(i as nat, 4);
        }
        d = d * 2;
        i = i + 1;
    }
    let capped: u64 = if d > MAX_RETRY_DELAY_SECS { MAX_RETRY_DELAY_SECS } else { d };
    capped * 1000 + jitter_ms
}

/// Relies on `rand::Rng::gen_range` over `0..1000` with the thread-local
/// generator: a value in that range.
#[verifier::external_body]
fn jitter_ms() -> (r: u64)
    ensures
        r < 1000,
{
    rand::thread_rng().gen_range(0..1000u64)
}

/// Retry delay in milliseconds for retry count `k`, with a random jitter:
/// at least `2 * 2^min(k, 4)` seconds (capped at `MAX_RETRY_DELAY_SECS`) and
/// less than one second more.
pub fn calc_retry_delay(retry_count: u32) -> (r: u64)
    ensures
        retry_base_secs(retry_count) * 1000 <= r < retry_base_secs(retry_count) * 1000 + 1000,
        r < (MAX_RETRY_DELAY_SECS + 1) * 1000,
{
    let j = jitter_ms();
    retry_delay_ms(retry_count, j)
}


/// `s` without `a`.
pub open spec fn without(s: Seq<Address>, a: Address) -> Seq<Address>
    decreases s.len(),
{
    if s.len() == 0 {
        s
    } else if s.last() == a {
        without(s.drop_last(), a)
    } else {
        without(s.drop_last(), a).push(s.last())
    }
}

pub open spec fn no_dup(s: Seq<Address>) -> bool {
    forall|i: int, j: int| 0 <= i < s.len() && 0 <= j < s.len() && i != j ==> s[i] != s[j]
}

proof fn lemma_without(s: Seq<Address>, a: Address)
    requires
        no_dup(s),
    ensures
        no_dup(without(s, a)),
        forall|x: Address| #[trigger] without(s, a).contains(x) <==> (s.contains(x) && x != a),
    decreases s.len(),
{
    if s.len() > 0 {
        let p = s.drop_last();
        assert(no_dup(p));
        lemma_without(p, a);
        let w = without(p, a);
        assert forall|x: Address| p.contains(x) implies x != s.last() by {
            {
                let k = choose|k: int| 0 <= k < p.len() && p[k] == x;
                assert(s[k] == x);
                assert(s[s.len() - 1] == s.last());
            }
        }
        assert forall|x: Address| s.contains(x) <==> (p.contains(x) || x == s.last()) by {
            if s.contains(x) && x != s.last() {
                let k = choose|k: int| 0 <= k < s.len() && s[k] == x;
                assert(k < s.len() - 1);
                assert(p[k] == x);
            }
            if x == s.last() {
                assert(s[s.len() - 1] == x);
            }
            if p.contains(x) {
                let k = choose|k: int| 0 <= k < p.len() && p[k] == x;
                assert(s[k] == x);
            }
        }
        if s.last() == a {
            assert(without(s, a) == w);
            assert forall|x: Address| w.contains(x) <==> (s.contains(x) && x != a) by {}
        } else {
            let r = w.push(s.last());
            assert(without(s, a) == r);
            assert forall|x: Address| r.contains(x) <==> (w.contains(x) || x == s.last()) by {
                if r.contains(x) && x != s.last() {
                    let k = choose|k: int| 0 <= k < r.len() && r[k] == x;
                    assert(k < w.len());
                    assert(w[k] == x);
                }
                if x == s.last() {
                    assert(r[w.len() as int] == x);
                }
                if w.contains(x) {
                    let k = choose|k: int| 0 <= k < w.len() && w[k] == x;
                    assert(r[k] == x);
                }
            }
            assert forall|i: int, j: int| 0 <= i < r.len() && 0 <= j < r.len() && i != j implies r[i] != r[j] by {
                if i == w.len() {
                    assert(r[j] == w[j]);
                    assert(w.contains(r[j]));
                    assert(p.contains(r[j]));
                } else if j == w.len() {
                    assert(r[i] == w[i]);
                    assert(w.contains(r[i]));
                    assert(p.contains(r[i]));
                } else {
                    assert(r[i] == w[i] && r[j] == w[j]);
                }
            }
            assert forall|x: Address| r.contains(x) <==> (s.contains(x) && x != a) by {}
        }
    }
}

proof fn lemma_drop_adapter_devices(conn: Seq<Address>, devs: Seq<DeviceEntry>, name: Seq<char>)
    requires
        no_dup(conn),
    ensures
        no_dup(drop_adapter_devices(conn, devs, name)),
        forall|x: Address| #[trigger] drop_adapter_devices(conn, devs, name).contains(x) <==> (conn.contains(x) && !(exists|k: int|
            0 <= k < devs.len() && devs[k].address == x && devs[k].adapter_name@ == name)),
    decreases devs.len(),
{
    if devs.len() > 0 {
        let p = devs.drop_last();
        let d = devs.last();
        lemma_drop_adapter_devices(conn, p, name);
        let c = drop_adapter_devices(conn, p, name);
        if d.adapter_name@ == name {
            lemma_without(c, d.address);
        }
        assert forall|x: Address| drop_adapter_devices(conn, devs, name).contains(x) <==> (conn.contains(x) && !(exists|k: int|
            0 <= k < devs.len() && devs[k].address == x && devs[k].adapter_name@ == name)) by {
            let in_p = exists|k: int| 0 <= k < p.len() && p[k].address == x && p[k].adapter_name@ == name;
            let in_d = exists|k: int| 0 <= k < devs.len() && devs[k].address == x && devs[k].adapter_name@ == name;
            assert(c.contains(x) <==> (conn.contains(x) && !in_p));
            if d.adapter_name@ == name {
                assert(drop_adapter_devices(conn, devs, name) == without(c, d.address));
                assert(without(c, d.address).contains(x) <==> (c.contains(x) && x != d.address));
                if x == d.address {
                    assert(devs[devs.len() - 1] == d);
                    assert(in_d);
                }
            } else {
                assert(drop_adapter_devices(conn, devs, name) == c);
            }
            if in_p {
                let k = choose|k: int| 0 <= k < p.len() && p[k].address == x && p[k].adapter_name@ == name;
                assert(devs[k] == p[k]);
            }
            if exists|k: int| 0 <= k < devs.len() && devs[k].address == x && devs[k].adapter_name@ == name {
                let k = choose|k: int| 0 <= k < devs.len() && devs[k].address == x && devs[k].adapter_name@ == name;
                if k < devs.len() - 1 {
                    assert(p[k] == devs[k]);
                } else {
                    assert(devs[k] == d);
                }
            }
        }
    }
}

/// Removes `a` from a duplicate-free list.
fn remove_address(v: &mut Vec<Address>, a: Address)
    requires
        no_dup(old(v)@),
    ensures
        final(v)@ == without(old(v)@, a),
        no_dup(final(v)@),
{
    let ghost s = v@;
    let mut r: Vec<Address> = Vec::new();
    let mut i: usize = 0;
    while i < v.len()
        invariant
            v@ == s,
            i <= s.len(),
            r@ == without(s.subrange(0, i as int), a),
        decreases s.len() - i,
    {
        assert(s.subrange(0, i as int + 1).drop_last() =~= s.subrange(0, i as int));
        if v[i] != a {
            r.push(v[i]);
        }
        i = i + 1;
    }
    assert(s.subrange(0, s.len() as int) =~= s);
    proof {
        lemma_without(s, a);
    }
    *v = r;
}

impl ManagerState {
    /// Addresses and adapter names are unique, and so are the entries of
    /// the connecting set.
    pub open spec fn wf(&self) -> bool {
        &&& forall|i: int, j: int|
            0 <= i < self.devices@.len() && 0 <= j < self.devices@.len() && i != j ==> self.devices@[i].address
                != self.devices@[j].address
        &&& forall|i: int, j: int|
            0 <= i < self.adapters@.len() && 0 <= j < self.adapters@.len() && i != j ==> self.adapters@[i].name@
                != self.adapters@[j].name@
        &&& no_dup(self.connecting@)
    }

    pub fn new() -> (r: ManagerState)
        ensures
            r.wf(),
            r.adapters@.len() == 0,
            r.devices@.len() == 0,
            r.connecting@.len() == 0,
    {
        ManagerState { adapters: Vec::new(), devices: Vec::new(), connecting: Vec::new() }
    }

    fn find_device(&self, a: Address) -> (r: Option<usize>)
        requires
            self.wf(),
        ensures
            r matches Some(i) ==> dev_index(self.devices@, a) == Some(i as int) && self.devices@[i as int].address == a,
            r is None ==> dev_index(self.devices@, a) is None,
    {
        let mut i: usize = 0;
        while i < self.devices.len()
            invariant
                self.wf(),
                i <= self.devices@.len(),
                forall|k: int| 0 <= k < i ==> self.devices@[k].address != a,
            decreases self.devices@.len() - i,
        {
            if self.devices[i].address == a {
                assert(self.devices@[i as int].address == a);
                proof {
                    let j = choose|j: int| 0 <= j < self.devices@.len() && self.devices@[j].address == a;
                    assert(j == i);
                }
                return Some(i);
            }
            i = i + 1;
        }
        None
    }

    fn find_adapter(&self, name: &String) -> (r: Option<usize>)
        requires
            self.wf(),
        ensures
            r matches Some(i) ==> adapter_index(self.adapters@, name@) == Some(i as int) && self.adapters@[i as int].name@
                == name@,
            r is None ==> adapter_index(self.adapters@, name@) is None,
    {
        let mut i: usize = 0;
        while i < self.adapters.len()
            invariant
                self.wf(),
                i <= self.adapters@.len(),
                forall|k: int| 0 <= k < i ==> self.adapters@[k].name@ != name@,
            decreases self.adapters@.len() - i,
        {
            if self.adapters[i].name.eq(name) {
                assert(self.adapters@[i as int].name@ == name@);
                proof {
                    let j = choose|j: int| 0 <= j < self.adapters@.len() && self.adapters@[j].name@ == name@;
                    assert(j == i);
                }
                return Some(i);
            }
            i = i + 1;
        }
        None
    }

    fn is_connecting(&self, a: Address) -> (r: bool)
        ensures
            r == self.connecting@.contains(a),
    {
        let mut i: usize = 0;
        while i < self.connecting.len()
            invariant
                i <= self.connecting@.len(),
                forall|k: int| 0 <= k < i ==> self.connecting@[k] != a,
            decreases self.connecting@.len() - i,
        {
            if self.connecting[i] == a {
                assert(self.connecting@[i as int] == a);
                return true;
            }
            i = i + 1;
        }
        false
    }

    /// Requests a session with `a`, given whether the host reports it
    /// paired. It is refused while an attempt is in flight, for an unknown
    /// device, when its adapter is unknown or not active, when the device is
    /// not connected, or when it is not paired; a refusal changes nothing.
    /// Otherwise the device becomes `Connecting` and a session task is
    /// spawned.
    pub fn establish_aap(&mut self, a: Address, paired: bool) -> (r: (Result<(), AirPodsError>, Vec<Action>))
        requires
            old(self).wf(),
        ensures
            final(self).wf(),
            r.0 == establish_outcome(*old(self), a, paired),
            r.0 is Err ==> final(self).devices@ == old(self).devices@ && final(self).adapters@ == old(self).adapters@
                && final(self).connecting@ == old(self).connecting@ && r.1@.len() == 0,
            r.0 is Ok ==> ({
                let i = dev_index(old(self).devices@, a)->0;
                &&& final(self).devices@ == old(self).devices@.update(
                    i,
                    DeviceEntry { aap_state: AapState::Connecting, has_task: true, ..old(self).devices@[i] },
                )
                &&& final(self).adapters@ == old(self).adapters@
                &&& final(self).connecting@ == old(self).connecting@.push(a)
                &&& r.1@ == seq![Action::SpawnSession(a)]
            }),
    {
        if self.is_connecting(a) {
            return (Err(AirPodsError::AlreadyConnecting), Vec::new());
        }
        let i = match self.find_device(a) {
            Some(i) => i,
            None => {
                return (Err(AirPodsError::DeviceNotFound(a)), Vec::new());
            },
        };
        let j = match self.find_adapter(&self.devices[i].adapter_name) {
            Some(j) => j,
            None => {
                return (Err(AirPodsError::AdapterNotFound), Vec::new());
            },
        };
        match self.adapters[j].state {
            AdapterState::Active => {},
            _ => {
                return (Err(AirPodsError::AdapterNotAvailable), Vec::new());
            },
        }
        if self.devices[i].bluetooth_state != BluetoothState::Connected {
            return (Err(AirPodsError::DeviceNotConnected), Vec::new());
        }
        if !paired {
            return (Err(AirPodsError::DeviceNotPaired), Vec::new());
        }
        self.devices[i].has_task = true;
        self.devices[i].aap_state = AapState::Connecting;
        self.connecting.push(a);
        proof {
            assert forall|x: int, y: int|
                0 <= x < self.connecting@.len() && 0 <= y < self.connecting@.len() && x != y implies self.connecting@[x]
                != self.connecting@[y] by {
                if x == old(self).connecting@.len() {
                    assert(old(self).connecting@[y] == self.connecting@[y]);
                } else if y == old(self).connecting@.len() {
                    assert(old(self).connecting@[x] == self.connecting@[x]);
                }
            }
        }
        assert(self.devices@ =~= old(self).devices@.update(
            i as int,
            DeviceEntry { aap_state: AapState::Connecting, has_task: true, ..old(self).devices@[i as int] },
        ));
        (Ok(()), vec![Action::SpawnSession(a)])
    }
}


impl ManagerState {
    /// An adapter disappeared: it becomes `Lost` with one more retry and its
    /// monitor stops; every device on it fails with its session task
    /// aborted and a device error published; recovery is scheduled with the
    /// new retry count. An unknown adapter changes nothing.
    pub fn adapter_lost(&mut self, name: &String) -> (r: Vec<Action>)
        requires
            old(self).wf(),
        ensures
            final(self).wf(),
            adapter_index(old(self).adapters@, name@) is None ==> final(self).adapters@ == old(self).adapters@
                && final(self).devices@ == old(self).devices@ && final(self).connecting@ == old(self).connecting@
                && r@.len() == 0,
            adapter_index(old(self).adapters@, name@) matches Some(j) ==> ({
                let ad = old(self).adapters@[j];
                &&& final(self).connecting@ == drop_adapter_devices(old(self).connecting@, old(self).devices@, name@)
                &&& forall|x: Address| final(self).connecting@.contains(x) <==> (old(self).connecting@.contains(x) && !(exists|k: int|
                    0 <= k < old(self).devices@.len() && old(self).devices@[k].address == x && old(self).devices@[k].adapter_name@
                        == name@))
                &&& final(self).adapters@.len() == old(self).adapters@.len()
                &&& forall|k: int| 0 <= k < old(self).adapters@.len() && k != j ==> final(self).adapters@[k] == old(self).adapters@[k]
                &&& final(self).adapters@[j].name == ad.name
                &&& final(self).adapters@[j].state is Lost
                &&& final(self).adapters@[j].retry_count == bump(ad.retry_count)
                &&& !final(self).adapters@[j].monitoring
                &&& final(self).devices@ == lost_devices(old(self).devices@, name@)
                &&& forall|k: int| 0 <= k < old(self).devices@.len() ==> final(self).devices@[k] == (if old(self).devices@[k].adapter_name@ == name@ {
                    failed_entry(old(self).devices@[k])
                } else {
                    old(self).devices@[k]
                })
                &&& r@ == (if ad.monitoring { seq![Action::StopMonitor(*name)] } else { Seq::empty() }) + lost_actions(
                    old(self).devices@,
                    name@,
                ) + seq![Action::ScheduleAdapterRecovery(*name, bump(ad.retry_count))]
            }),
    {
        let j = match self.find_adapter(name) {
            Some(j) => j,
            None => {
                return Vec::new();
            },
        };
        let mut actions: Vec<Action> = Vec::new();
        self.adapters[j].state = AdapterState::Lost;
        let rc = self.adapters[j].retry_count;
        let nrc: u32 = if rc < u32::MAX { rc + 1 } else { rc };
        self.adapters[j].retry_count = nrc;
        if self.adapters[j].monitoring {
            self.adapters[j].monitoring = false;
            actions.push(Action::StopMonitor(name.clone()));
        }
        let ghost a1 = self.adapters@;
        assert forall|x: int, y: int|
            0 <= x < a1.len() && 0 <= y < a1.len() && x != y implies a1[x].name@ != a1[y].name@ by {
            assert(a1[x].name == old(self).adapters@[x].name);
            assert(a1[y].name == old(self).adapters@[y].name);
        }
        let ghost pre = actions@;
        let ghost d0 = self.devices@;
        let mut i: usize = 0;
        while i < self.devices.len()
            invariant
                self.devices@.len() == d0.len(),
                i <= d0.len(),
                forall|k: int| 0 <= k < i ==> self.devices@[k] == (if d0[k].adapter_name@ == name@ {
                    failed_entry(d0[k])
                } else {
                    d0[k]
                }),
                forall|k: int| i <= k < d0.len() ==> self.devices@[k] == d0[k],
                actions@ == pre + lost_actions(d0.subrange(0, i as int), name@),
                self.adapters@ == a1,
                self.connecting@ == drop_adapter_devices(old(self).connecting@, d0.subrange(0, i as int), name@),
                no_dup(self.connecting@),
            decreases d0.len() - i,
        {
            assert(d0.subrange(0, i as int + 1).drop_last() =~= d0.subrange(0, i as int));
            if self.devices[i].adapter_name.eq(name) {
                let addr = self.devices[i].address;
                remove_address(&mut self.connecting, addr);
                if self.devices[i].has_task {
                    self.devices[i].has_task = false;
                    actions.push(Action::AbortSession(addr));
                }
                self.devices[i].aap_state = AapState::Failed(FailReason::AdapterLost);
                actions.push(Action::Emit(addr, AirPodsEvent::DeviceError));
                assert(self.devices@[i as int] == failed_entry(d0[i as int]));
            }
            proof {
                let sub = d0.subrange(0, i as int + 1);
                assert(sub.last() == d0[i as int]);
                assert(actions@ =~= pre + lost_actions(sub, name@));
            }
            i = i + 1;
        }
        assert(d0.subrange(0, d0.len() as int) =~= d0);
        proof {
            assert(d0 == old(self).devices@);
            lemma_drop_adapter_devices(old(self).connecting@, d0, name@);
            assert forall|x: Address| self.connecting@.contains(x) <==> (old(self).connecting@.contains(x) && !(exists|k: int|
                0 <= k < d0.len() && d0[k].address == x && d0[k].adapter_name@ == name@)) by {
                assert(drop_adapter_devices(old(self).connecting@, d0, name@).contains(x) <==> (old(self).connecting@.contains(x)
                    && !(exists|k: int| 0 <= k < d0.len() && d0[k].address == x && d0[k].adapter_name@ == name@)));
            }
        }
        actions.push(Action::ScheduleAdapterRecovery(name.clone(), nrc));
        assert(self.devices@ =~= lost_devices(d0, name@));
        proof {
            assert forall|x: int, y: int|
                0 <= x < self.devices@.len() && 0 <= y < self.devices@.len() && x != y implies self.devices@[x].address
                != self.devices@[y].address by {
                assert(self.devices@[x].address == d0[x].address);
                assert(self.devices@[y].address == d0[y].address);
            }
        }
        actions
    }

    /// An adapter is available again: a known one becomes `Active` with its
    /// retry count reset, gets its monitor back if it had none, is scanned for
    /// connected devices, and each device on it that is linked but whose
    /// session failed or is down gets one session attempt. An unknown one is
    /// initialised.
    pub fn adapter_available(&mut self, name: &String) -> (r: Vec<Action>)
        requires
            old(self).wf(),
        ensures
            final(self).wf(),
            final(self).devices@ == old(self).devices@,
            final(self).connecting@ == old(self).connecting@,
            adapter_index(old(self).adapters@, name@) is None ==> final(self).adapters@ == old(self).adapters@
                && r@ == seq![Action::InitializeAdapter(*name)],
            adapter_index(old(self).adapters@, name@) matches Some(j) ==> ({
                let ad = old(self).adapters@[j];
                &&& final(self).adapters@.len() == old(self).adapters@.len()
                &&& forall|k: int| 0 <= k < old(self).adapters@.len() && k != j ==> final(self).adapters@[k] == old(self).adapters@[k]
                &&& final(self).adapters@[j].name == ad.name
                &&& final(self).adapters@[j].state is Active
                &&& final(self).adapters@[j].retry_count == 0
                &&& final(self).adapters@[j].monitoring
                &&& r@ == (if !ad.monitoring { seq![Action::StartMonitor(*name)] } else { Seq::empty() }) + seq![
                    Action::CheckConnectedDevices(*name),
                ] + retry_targets(old(self).devices@, name@)
            }),
    {
        let j = match self.find_adapter(name) {
            Some(j) => j,
            None => {
                return vec![Action::InitializeAdapter(name.clone())];
            },
        };
        let mut actions: Vec<Action> = Vec::new();
        self.adapters[j].state = AdapterState::Active;
        self.adapters[j].retry_count = 0;
        if !self.adapters[j].monitoring {
            self.adapters[j].monitoring = true;
            actions.push(Action::StartMonitor(name.clone()));
        }
        actions.push(Action::CheckConnectedDevices(name.clone()));
        let ghost a1 = self.adapters@;
        assert forall|x: int, y: int|
            0 <= x < a1.len() && 0 <= y < a1.len() && x != y implies a1[x].name@ != a1[y].name@ by {
            assert(a1[x].name == old(self).adapters@[x].name);
            assert(a1[y].name == old(self).adapters@[y].name);
        }
        let ghost pre = actions@;
        let mut i: usize = 0;
        while i < self.devices.len()
            invariant
                i <= self.devices@.len(),
                self.devices@ == old(self).devices@,
                self.adapters@ == a1,
                self.connecting@ == old(self).connecting@,
                actions@ == pre + retry_targets(self.devices@.subrange(0, i as int), name@),
            decreases self.devices@.len() - i,
        {
            let ghost sub = self.devices@.subrange(0, i as int + 1);
            assert(sub.drop_last() =~= self.devices@.subrange(0, i as int));
            assert(sub.last() == self.devices@[i as int]);
            let d = &self.devices[i];
            let failed_or_down = match d.aap_state {
                AapState::Failed(_) => true,
                AapState::Disconnected => true,
                _ => false,
            };
            if d.adapter_name.eq(name) && d.bluetooth_state == BluetoothState::Connected && failed_or_down {
                actions.push(Action::TryEstablish(d.address));
            }
            assert(actions@ =~= pre + retry_targets(sub, name@));
            i = i + 1;
        }
        assert(self.devices@.subrange(0, self.devices@.len() as int) =~= self.devices@);
        actions
    }

    /// An adapter could not be opened, or failed: it becomes `Failed`.
    pub fn adapter_error(&mut self, name: &String, msg: String)
        requires
            old(self).wf(),
        ensures
            final(self).wf(),
            final(self).devices@ == old(self).devices@,
            final(self).connecting@ == old(self).connecting@,
            final(self).adapters@.len() == old(self).adapters@.len(),
            adapter_index(old(self).adapters@, name@) is None ==> final(self).adapters@ == old(self).adapters@,
            adapter_index(old(self).adapters@, name@) matches Some(j) ==> final(self).adapters@[j].state == AdapterState::Failed(msg)
                && final(self).adapters@[j].name == old(self).adapters@[j].name
                && final(self).adapters@[j].retry_count == old(self).adapters@[j].retry_count
                && final(self).adapters@[j].monitoring == old(self).adapters@[j].monitoring
                && forall|k: int| 0 <= k < old(self).adapters@.len() && k != j ==> final(self).adapters@[k] == old(self).adapters@[k],
    {
        match self.find_adapter(name) {
            Some(j) => {
                self.adapters[j].state = AdapterState::Failed(msg);
                proof {
                    assert forall|x: int, y: int|
                        0 <= x < self.adapters@.len() && 0 <= y < self.adapters@.len() && x != y implies self.adapters@[x].name@
                        != self.adapters@[y].name@ by {
                        assert(self.adapters@[x].name == old(self).adapters@[x].name);
                        assert(self.adapters@[y].name == old(self).adapters@[y].name);
                    }
                }
            },
            None => {},
        }
    }

    /// An adapter was opened and powered: it is recorded as `Active` with no
    /// retries and a running monitor, and scanned for connected devices.
    pub fn adapter_initialized(&mut self, name: String) -> (r: Vec<Action>)
        requires
            old(self).wf(),
        ensures
            final(self).wf(),
            final(self).devices@ == old(self).devices@,
            final(self).connecting@ == old(self).connecting@,
            adapter_index(final(self).adapters@, name@) matches Some(j) && final(self).adapters@[j].state is Active
                && final(self).adapters@[j].retry_count == 0 && final(self).adapters@[j].monitoring,
            forall|k: int| 0 <= k < old(self).adapters@.len() && old(self).adapters@[k].name@ != name@ ==> final(self).adapters@.contains(
                old(self).adapters@[k],
            ),
            r@ == seq![Action::StartMonitor(name), Action::CheckConnectedDevices(name)],
    {
        let entry = AdapterEntry { name: name.clone(), state: AdapterState::Active, retry_count: 0, monitoring: true };
        let actions = vec![Action::StartMonitor(name.clone()), Action::CheckConnectedDevices(name.clone())];
        match self.find_adapter(&name) {
            Some(j) => {
                self.adapters.set(j, entry);
                proof {
                    assert forall|x: int, y: int|
                        0 <= x < self.adapters@.len() && 0 <= y < self.adapters@.len() && x != y implies self.adapters@[x].name@
                        != self.adapters@[y].name@ by {
                        assert(self.adapters@[x].name@ == old(self).adapters@[x].name@);
                        assert(self.adapters@[y].name@ == old(self).adapters@[y].name@);
                    }
                    assert(self.adapters@[j as int].name@ == name@);
                    assert forall|k: int| 0 <= k < old(self).adapters@.len() && old(self).adapters@[k].name@ != name@ implies self.adapters@.contains(
                        old(self).adapters@[k],
                    ) by {
                        assert(k != j);
                        assert(self.adapters@[k] == old(self).adapters@[k]);
                    }
                }
            },
            None => {
                self.adapters.push(entry);
                proof {
                    let n = old(self).adapters@.len();
                    assert forall|x: int, y: int|
                        0 <= x < self.adapters@.len() && 0 <= y < self.adapters@.len() && x != y implies self.adapters@[x].name@
                        != self.adapters@[y].name@ by {
                        if x == n {
                            assert(self.adapters@[y] == old(self).adapters@[y]);
                        } else if y == n {
                            assert(self.adapters@[x] == old(self).adapters@[x]);
                        } else {
                            assert(self.adapters@[x] == old(self).adapters@[x]);
                            assert(self.adapters@[y] == old(self).adapters@[y]);
                        }
                    }
                    assert(self.adapters@[n as int].name@ == name@);
                    assert forall|k: int| 0 <= k < old(self).adapters@.len() && old(self).adapters@[k].name@ != name@ implies self.adapters@.contains(
                        old(self).adapters@[k],
                    ) by {
                        assert(self.adapters@[k] == old(self).adapters@[k]);
                    }
                }
            },
        }
        proof {
            let j = choose|j: int| 0 <= j < self.adapters@.len() && self.adapters@[j].name@ == name@;
            assert(adapter_index(self.adapters@, name@) == Some(j));
        }
        actions
    }
}


/// Whether two device lists differ only at index `i`, where the entry keeps
/// its address.
pub open spec fn changed_at(old_devs: Seq<DeviceEntry>, new_devs: Seq<DeviceEntry>, i: int) -> bool {
    &&& new_devs.len() == old_devs.len()
    &&& new_devs[i].address == old_devs[i].address
    &&& forall|k: int| 0 <= k < old_devs.len() && k != i ==> new_devs[k] == old_devs[k]
}

impl ManagerState {
    proof fn lemma_changed_keeps_wf(&self, old_devs: Seq<DeviceEntry>, i: int)
        requires
            forall|x: int, y: int|
                0 <= x < old_devs.len() && 0 <= y < old_devs.len() && x != y ==> old_devs[x].address != old_devs[y].address,
            0 <= i < old_devs.len(),
            changed_at(old_devs, self.devices@, i),
        ensures
            forall|x: int, y: int|
                0 <= x < self.devices@.len() && 0 <= y < self.devices@.len() && x != y ==> self.devices@[x].address
                    != self.devices@[y].address,
    {
        assert forall|x: int, y: int|
            0 <= x < self.devices@.len() && 0 <= y < self.devices@.len() && x != y implies self.devices@[x].address
            != self.devices@[y].address by {
            assert(self.devices@[x].address == old_devs[x].address);
            assert(self.devices@[y].address == old_devs[y].address);
        }
    }

    /// Whether a discovered device should be checked: it is not known and
    /// its adapter is.
    pub fn device_discovered(&self, a: Address, adapter_name: &String) -> (r: bool)
        requires
            self.wf(),
        ensures
            r == (dev_index(self.devices@, a) is None && adapter_index(self.adapters@, adapter_name@) is Some),
    {
        self.find_device(a).is_none() && self.find_adapter(adapter_name).is_some()
    }

    /// Records a supported device that the host has connected, and asks for
    /// a session with it. A known device changes nothing.
    pub fn add_device(&mut self, a: Address, adapter_name: String) -> (r: Vec<Action>)
        requires
            old(self).wf(),
        ensures
            final(self).wf(),
            final(self).adapters@ == old(self).adapters@,
            final(self).connecting@ == old(self).connecting@,
            dev_index(old(self).devices@, a) is Some ==> final(self).devices@ == old(self).devices@ && r@.len() == 0,
            dev_index(old(self).devices@, a) is None ==> r@ == seq![Action::TryEstablish(a)]
                && final(self).devices@.len() == old(self).devices@.len() + 1
                && final(self).devices@.drop_last() == old(self).devices@ && ({
                let d = final(self).devices@.last();
                &&& d.address == a
                &&& d.bluetooth_state == BluetoothState::Connected
                &&& d.aap_state == AapState::Disconnected
                &&& d.adapter_name == adapter_name
                &&& d.retry_count == 0
                &&& d.last_error is None
                &&& !d.has_task
            }),
    {
        if self.find_device(a).is_some() {
            return Vec::new();
        }
        self.devices.push(DeviceEntry {
            address: a,
            bluetooth_state: BluetoothState::Connected,
            aap_state: AapState::Disconnected,
            adapter_name,
            retry_count: 0,
            last_error: None,
            has_task: false,
        });
        proof {
            let n = old(self).devices@.len();
            assert(self.devices@.drop_last() =~= old(self).devices@);
            assert forall|x: int, y: int|
                0 <= x < self.devices@.len() && 0 <= y < self.devices@.len() && x != y implies self.devices@[x].address
                != self.devices@[y].address by {
                if x == n {
                    assert(self.devices@[y] == old(self).devices@[y]);
                } else if y == n {
                    assert(self.devices@[x] == old(self).devices@[x]);
                } else {
                    assert(self.devices@[x] == old(self).devices@[x]);
                    assert(self.devices@[y] == old(self).devices@[y]);
                }
            }
        }
        vec![Action::TryEstablish(a)]
    }

    /// The host connected a device: a known one is marked linked and gets a
    /// session attempt; an unknown one is probed.
    pub fn bluetooth_connected(&mut self, a: Address) -> (r: Vec<Action>)
        requires
            old(self).wf(),
        ensures
            final(self).wf(),
            final(self).adapters@ == old(self).adapters@,
            final(self).connecting@ == old(self).connecting@,
            dev_index(old(self).devices@, a) is None ==> final(self).devices@ == old(self).devices@ && r@ == seq![
                Action::ProbeNewDevice(a),
            ],
            dev_index(old(self).devices@, a) matches Some(i) ==> final(self).devices@ == old(self).devices@.update(
                i,
                DeviceEntry { bluetooth_state: BluetoothState::Connected, ..old(self).devices@[i] },
            ) && r@ == seq![Action::TryEstablish(a)],
    {
        match self.find_device(a) {
            Some(i) => {
                self.devices[i].bluetooth_state = BluetoothState::Connected;
                proof { self.lemma_changed_keeps_wf(old(self).devices@, i as int); }
                assert(self.devices@ =~= old(self).devices@.update(
                    i as int,
                    DeviceEntry { bluetooth_state: BluetoothState::Connected, ..old(self).devices@[i as int] },
                ));
                vec![Action::TryEstablish(a)]
            },
            None => vec![Action::ProbeNewDevice(a)],
        }
    }

    /// The host lost the link to a device: it is marked unlinked, its
    /// session task is aborted, its session is down, and a disconnection is
    /// published; it leaves the connecting set.
    pub fn bluetooth_disconnected(&mut self, a: Address) -> (r: Vec<Action>)
        requires
            old(self).wf(),
        ensures
            final(self).wf(),
            final(self).adapters@ == old(self).adapters@,
            final(self).connecting@ == without(old(self).connecting@, a),
            dev_index(old(self).devices@, a) is None ==> final(self).devices@ == old(self).devices@ && r@.len() == 0,
            dev_index(old(self).devices@, a) matches Some(i) ==> final(self).devices@ == old(self).devices@.update(
                i,
                DeviceEntry {
                    bluetooth_state: BluetoothState::Disconnected,
                    aap_state: AapState::Disconnected,
                    has_task: false,
                    ..old(self).devices@[i]
                },
            ) && r@ == (if old(self).devices@[i].has_task { seq![Action::AbortSession(a)] } else { Seq::empty() })
                + seq![Action::Emit(a, AirPodsEvent::DeviceDisconnected)],
    {
        let mut actions: Vec<Action> = Vec::new();
        match self.find_device(a) {
            Some(i) => {
                self.devices[i].bluetooth_state = BluetoothState::Disconnected;
                if self.devices[i].has_task {
                    self.devices[i].has_task = false;
                    actions.push(Action::AbortSession(a));
                }
                self.devices[i].aap_state = AapState::Disconnected;
                actions.push(Action::Emit(a, AirPodsEvent::DeviceDisconnected));
                proof { self.lemma_changed_keeps_wf(old(self).devices@, i as int); }
                assert(self.devices@ =~= old(self).devices@.update(
                    i as int,
                    DeviceEntry {
                        bluetooth_state: BluetoothState::Disconnected,
                        aap_state: AapState::Disconnected,
                        has_task: false,
                        ..old(self).devices@[i as int]
                    },
                ));
                assert(actions@ =~= (if old(self).devices@[i as int].has_task { seq![Action::AbortSession(a)] } else { Seq::empty() })
                    + seq![Action::Emit(a, AirPodsEvent::DeviceDisconnected)]);
            },
            None => {},
        }
        remove_address(&mut self.connecting, a);
        actions
    }

    /// A session came up: the device is `Connected` with its retries and
    /// last error cleared, and a connection is published.
    pub fn aap_connected(&mut self, a: Address) -> (r: Vec<Action>)
        requires
            old(self).wf(),
        ensures
            final(self).wf(),
            final(self).adapters@ == old(self).adapters@,
            final(self).connecting@ == without(old(self).connecting@, a),
            dev_index(old(self).devices@, a) is None ==> final(self).devices@ == old(self).devices@ && r@.len() == 0,
            dev_index(old(self).devices@, a) matches Some(i) ==> final(self).devices@ == old(self).devices@.update(
                i,
                DeviceEntry { aap_state: AapState::Connected, retry_count: 0, last_error: None, ..old(self).devices@[i] },
            ) && r@ == seq![Action::Emit(a, AirPodsEvent::DeviceConnected)],
    {
        let mut actions: Vec<Action> = Vec::new();
        match self.find_device(a) {
            Some(i) => {
                self.devices[i].aap_state = AapState::Connected;
                self.devices[i].retry_count = 0;
                self.devices[i].last_error = None;
                actions.push(Action::Emit(a, AirPodsEvent::DeviceConnected));
                proof { self.lemma_changed_keeps_wf(old(self).devices@, i as int); }
                assert(self.devices@ =~= old(self).devices@.update(
                    i as int,
                    DeviceEntry { aap_state: AapState::Connected, retry_count: 0, last_error: None, ..old(self).devices@[i as int] },
                ));
                assert(actions@ =~= seq![Action::Emit(a, AirPodsEvent::DeviceConnected)]);
            },
            None => {},
        }
        remove_address(&mut self.connecting, a);
        actions
    }

    /// A session ended. After an error on a device that is still linked it
    /// waits to reconnect, with one more retry and a retry scheduled with
    /// that count; otherwise its session is down and its retries reset.
    pub fn aap_disconnected(&mut self, a: Address, is_error: bool) -> (r: Vec<Action>)
        requires
            old(self).wf(),
        ensures
            final(self).wf(),
            final(self).adapters@ == old(self).adapters@,
            final(self).connecting@ == without(old(self).connecting@, a),
            dev_index(old(self).devices@, a) is None ==> final(self).devices@ == old(self).devices@ && r@.len() == 0,
            dev_index(old(self).devices@, a) matches Some(i) ==> ({
                let d = old(self).devices@[i];
                if is_error && d.bluetooth_state == BluetoothState::Connected {
                    &&& final(self).devices@ == old(self).devices@.update(
                        i,
                        DeviceEntry { aap_state: AapState::WaitingToReconnect, retry_count: bump(d.retry_count), ..d },
                    )
                    &&& r@ == seq![Action::ScheduleSessionRetry(a, bump(d.retry_count))]
                } else {
                    &&& final(self).devices@ == old(self).devices@.update(
                        i,
                        DeviceEntry { aap_state: AapState::Disconnected, retry_count: 0, ..d },
                    )
                    &&& r@.len() == 0
                }
            }),
    {
        let mut actions: Vec<Action> = Vec::new();
        match self.find_device(a) {
            Some(i) => {
                if is_error && self.devices[i].bluetooth_state == BluetoothState::Connected {
                    self.devices[i].aap_state = AapState::WaitingToReconnect;
                    let rc = self.devices[i].retry_count;
                    let nrc: u32 = if rc < u32::MAX { rc + 1 } else { rc };
                    self.devices[i].retry_count = nrc;
                    actions.push(Action::ScheduleSessionRetry(a, nrc));
                    assert(actions@ =~= seq![Action::ScheduleSessionRetry(a, nrc)]);
                } else {
                    self.devices[i].aap_state = AapState::Disconnected;
                    self.devices[i].retry_count = 0;
                }
                proof { self.lemma_changed_keeps_wf(old(self).devices@, i as int); }
                assert(self.devices@ =~= old(self).devices@.update(i as int, self.devices@[i as int]));
            },
            None => {},
        }
        remove_address(&mut self.connecting, a);
        actions
    }

    /// The host removed a device: it leaves the inventory and the
    /// connecting set, and a disconnection is published.
    pub fn device_lost(&mut self, a: Address) -> (r: Vec<Action>)
        requires
            old(self).wf(),
        ensures
            final(self).wf(),
            final(self).adapters@ == old(self).adapters@,
            final(self).connecting@ == without(old(self).connecting@, a),
            dev_index(old(self).devices@, a) is None ==> final(self).devices@ == old(self).devices@ && r@.len() == 0,
            dev_index(old(self).devices@, a) matches Some(i) ==> final(self).devices@ == old(self).devices@.remove(i)
                && r@ == seq![Action::Emit(a, AirPodsEvent::DeviceDisconnected)],
            dev_index(final(self).devices@, a) is None,
    {
        let mut actions: Vec<Action> = Vec::new();
        match self.find_device(a) {
            Some(i) => {
                let _gone = self.devices.remove(i);
                actions.push(Action::Emit(a, AirPodsEvent::DeviceDisconnected));
                assert(actions@ =~= seq![Action::Emit(a, AirPodsEvent::DeviceDisconnected)]);
                proof {
                    let od = old(self).devices@;
                    assert forall|x: int, y: int|
                        0 <= x < self.devices@.len() && 0 <= y < self.devices@.len() && x != y implies self.devices@[x].address
                        != self.devices@[y].address by {
                        let ox = if x < i { x } else { x + 1 };
                        let oy = if y < i { y } else { y + 1 };
                        assert(self.devices@[x] == od[ox]);
                        assert(self.devices@[y] == od[oy]);
                    }
                    assert forall|k: int| 0 <= k < self.devices@.len() implies self.devices@[k].address != a by {
                        let ok = if k < i { k } else { k + 1 };
                        assert(self.devices@[k] == od[ok]);
                        assert(od[i as int].address == a);
                    }
                }
            },
            None => {},
        }
        remove_address(&mut self.connecting, a);
        actions
    }

    /// Tears down the session with a device on request: its task is
    /// aborted, its session is down, it leaves the connecting set, and a
    /// disconnection is published. An unknown device is refused.
    pub fn disconnect_aap(&mut self, a: Address) -> (r: (Result<(), AirPodsError>, Vec<Action>))
        requires
            old(self).wf(),
        ensures
            final(self).wf(),
            final(self).adapters@ == old(self).adapters@,
            dev_index(old(self).devices@, a) is None ==> r.0 == Err::<(), AirPodsError>(AirPodsError::DeviceNotFound(a))
                && final(self).devices@ == old(self).devices@ && final(self).connecting@ == old(self).connecting@
                && r.1@.len() == 0,
            dev_index(old(self).devices@, a) matches Some(i) ==> r.0 is Ok && final(self).devices@ == old(self).devices@.update(
                i,
                DeviceEntry { aap_state: AapState::Disconnected, has_task: false, ..old(self).devices@[i] },
            ) && final(self).connecting@ == without(old(self).connecting@, a) && r.1@ == (if old(self).devices@[i].has_task {
                seq![Action::AbortSession(a)]
            } else {
                Seq::empty()
            }) + seq![Action::DisconnectDevice(a), Action::Emit(a, AirPodsEvent::DeviceDisconnected)],
    {
        let i = match self.find_device(a) {
            Some(i) => i,
            None => {
                return (Err(AirPodsError::DeviceNotFound(a)), Vec::new());
            },
        };
        let mut actions: Vec<Action> = Vec::new();
        if self.devices[i].has_task {
            self.devices[i].has_task = false;
            actions.push(Action::AbortSession(a));
        }
        self.devices[i].aap_state = AapState::Disconnected;
        actions.push(Action::DisconnectDevice(a));
        actions.push(Action::Emit(a, AirPodsEvent::DeviceDisconnected));
        proof { self.lemma_changed_keeps_wf(old(self).devices@, i as int); }
        assert(self.devices@ =~= old(self).devices@.update(
            i as int,
            DeviceEntry { aap_state: AapState::Disconnected, has_task: false, ..old(self).devices@[i as int] },
        ));
        assert(actions@ =~= (if old(self).devices@[i as int].has_task { seq![Action::AbortSession(a)] } else { Seq::empty() })
            + seq![Action::DisconnectDevice(a), Action::Emit(a, AirPodsEvent::DeviceDisconnected)]);
        remove_address(&mut self.connecting, a);
        (Ok(()), actions)
    }

    /// Link edge seen by the periodic health check, given whether the host
    /// reports the device connected now: a change of link state, or none.
    pub fn health_edge(&self, a: Address, connected_now: bool) -> (r: Option<BluetoothState>)
        requires
            self.wf(),
        ensures
            r == (match dev_index(self.devices@, a) {
                Some(i) => if self.devices@[i].bluetooth_state == BluetoothState::Connected && !connected_now {
                    Some(BluetoothState::Disconnected)
                } else if self.devices@[i].bluetooth_state == BluetoothState::Disconnected && connected_now {
                    Some(BluetoothState::Connected)
                } else {
                    None
                },
                None => None,
            }),
    {
        match self.find_device(a) {
            Some(i) => {
                let st = self.devices[i].bluetooth_state;
                if st == BluetoothState::Connected && !connected_now {
                    Some(BluetoothState::Disconnected)
                } else if st == BluetoothState::Disconnected && connected_now {
                    Some(BluetoothState::Connected)
                } else {
                    None
                }
            },
            None => None,
        }
    }

    /// The device has a session up or being set up.
    pub fn has_aap_connection(&self, a: Address) -> (r: bool)
        requires
            self.wf(),
        ensures
            r == (dev_index(self.devices@, a) matches Some(i) && (self.devices@[i].aap_state == AapState::Connected
                || self.devices@[i].aap_state == AapState::Connecting)),
    {
        match self.find_device(a) {
            Some(i) => {
                let st = self.devices[i].aap_state;
                st == AapState::Connected || st == AapState::Connecting
            },
            None => false,
        }
    }

    /// An adapter name needs (re)initialising: it is unknown, lost or failed.
    pub fn needs_initialization(&self, name: &String) -> (r: bool)
        requires
            self.wf(),
        ensures
            r == (match adapter_index(self.adapters@, name@) {
                Some(j) => !(self.adapters@[j].state is Active),
                None => true,
            }),
    {
        match self.find_adapter(name) {
            Some(j) => match self.adapters[j].state {
                AdapterState::Active => false,
                _ => true,
            },
            None => true,
        }
    }

    pub fn count_devices(&self) -> (r: usize)
        ensures
            r == self.devices@.len(),
    {
        self.devices.len()
    }
}


/// Devices after adapter `name` is lost.
pub open spec fn lost_devices(devs: Seq<DeviceEntry>, name: Seq<char>) -> Seq<DeviceEntry> {
    Seq::new(devs.len(), |k: int| if devs[k].adapter_name@ == name { failed_entry(devs[k]) } else { devs[k] })
}

/// Occurrences of `x` in `s`.
pub open spec fn occurrences(s: Seq<Action>, x: Action) -> nat
    decreases s.len(),
{
    if s.len() == 0 {
        0
    } else {
        occurrences(s.drop_last(), x) + if s.last() == x { 1nat } else { 0nat }
    }
}

proof fn lemma_occurrences_concat(a: Seq<Action>, b: Seq<Action>, x: Action)
    ensures
        occurrences(a + b, x) == occurrences(a, x) + occurrences(b, x),
    decreases b.len(),
{
    if b.len() > 0 {
        assert((a + b).drop_last() =~= a + b.drop_last());
        lemma_occurrences_concat(a, b.drop_last(), x);
    }
}

proof fn lemma_lost_events(devs: Seq<DeviceEntry>, name: Seq<char>, a: Address)
    requires
        forall|x: int, y: int| 0 <= x < devs.len() && 0 <= y < devs.len() && x != y ==> devs[x].address != devs[y].address,
    ensures
        occurrences(lost_actions(devs, name), Action::Emit(a, AirPodsEvent::DeviceError)) == (if exists|k: int|
            0 <= k < devs.len() && devs[k].address == a && devs[k].adapter_name@ == name {
            1nat
        } else {
            0nat
        }),
    decreases devs.len(),
{
    let e = Action::Emit(a, AirPodsEvent::DeviceError);
    if devs.len() > 0 {
        let p = devs.drop_last();
        let d = devs.last();
        lemma_lost_events(p, name, a);
        let mine: Seq<Action> = if d.adapter_name@ == name {
            (if d.has_task { seq![Action::AbortSession(d.address)] } else { Seq::empty() }) + seq![
                Action::Emit(d.address, AirPodsEvent::DeviceError),
            ]
        } else {
            Seq::empty()
        };
        lemma_occurrences_concat(lost_actions(p, name), mine, e);
        if d.adapter_name@ == name {
            let pre: Seq<Action> = if d.has_task { seq![Action::AbortSession(d.address)] } else { Seq::empty() };
            lemma_occurrences_concat(pre, seq![Action::Emit(d.address, AirPodsEvent::DeviceError)], e);
            reveal_with_fuel(occurrences, 2);
            assert(occurrences(pre, e) == 0);
        }
        if d.address == a {
            assert forall|k: int| 0 <= k < p.len() implies p[k].address != a by {
                assert(devs[k] == p[k]);
                assert(devs[devs.len() - 1] == d);
            }
        }
        if exists|k: int| 0 <= k < devs.len() && devs[k].address == a && devs[k].adapter_name@ == name {
            let k = choose|k: int| 0 <= k < devs.len() && devs[k].address == a && devs[k].adapter_name@ == name;
            if k < devs.len() - 1 {
                assert(p[k] == devs[k]);
            }
        }
        if exists|k: int| 0 <= k < p.len() && p[k].address == a && p[k].adapter_name@ == name {
            let k = choose|k: int| 0 <= k < p.len() && p[k].address == a && p[k].adapter_name@ == name;
            assert(devs[k] == p[k]);
        }
    }
}

proof fn lemma_retry_once(devs: Seq<DeviceEntry>, name: Seq<char>, a: Address)
    requires
        forall|x: int, y: int| 0 <= x < devs.len() && 0 <= y < devs.len() && x != y ==> devs[x].address != devs[y].address,
    ensures
        occurrences(retry_targets(devs, name), Action::TryEstablish(a)) == (if exists|k: int|
            0 <= k < devs.len() && devs[k].address == a && wants_retry(devs[k], name) {
            1nat
        } else {
            0nat
        }),
    decreases devs.len(),
{
    let e = Action::TryEstablish(a);
    if devs.len() > 0 {
        let p = devs.drop_last();
        let d = devs.last();
        lemma_retry_once(p, name, a);
        let mine: Seq<Action> = if wants_retry(d, name) { seq![Action::TryEstablish(d.address)] } else { Seq::empty() };
        lemma_occurrences_concat(retry_targets(p, name), mine, e);
        reveal_with_fuel(occurrences, 2);
        if d.address == a {
            assert forall|k: int| 0 <= k < p.len() implies p[k].address != a by {
                assert(devs[k] == p[k]);
                assert(devs[devs.len() - 1] == d);
            }
        }
        if exists|k: int| 0 <= k < devs.len() && devs[k].address == a && wants_retry(devs[k], name) {
            let k = choose|k: int| 0 <= k < devs.len() && devs[k].address == a && wants_retry(devs[k], name);
            if k < devs.len() - 1 {
                assert(p[k] == devs[k]);
            }
        }
        if exists|k: int| 0 <= k < p.len() && p[k].address == a && wants_retry(p[k], name) {
            let k = choose|k: int| 0 <= k < p.len() && p[k].address == a && wants_retry(p[k], name);
            assert(devs[k] == p[k]);
        }
    }
}

/// When an adapter is lost, each device on it is published as failed
/// exactly once, ends up `Failed` and leaves the connecting set; when the
/// adapter next becomes available, each of those devices that is still
/// linked is offered exactly one session attempt, which cannot be refused as
/// already connecting.
pub proof fn lemma_adapter_loss_and_recovery(s: ManagerState, name: Seq<char>, k: int)
    requires
        s.wf(),
        0 <= k < s.devices@.len(),
        s.devices@[k].adapter_name@ == name,
    ensures
        lost_devices(s.devices@, name)[k].aap_state == AapState::Failed(FailReason::AdapterLost),
        occurrences(lost_actions(s.devices@, name), Action::Emit(s.devices@[k].address, AirPodsEvent::DeviceError)) == 1,
        s.devices@[k].bluetooth_state == BluetoothState::Connected ==> occurrences(
            retry_targets(lost_devices(s.devices@, name), name),
            Action::TryEstablish(s.devices@[k].address),
        ) == 1,
        !drop_adapter_devices(s.connecting@, s.devices@, name).contains(s.devices@[k].address),
{
    lemma_drop_adapter_devices(s.connecting@, s.devices@, name);
    let devs = s.devices@;
    let a = devs[k].address;
    lemma_lost_events(devs, name, a);
    let l = lost_devices(devs, name);
    assert forall|x: int, y: int| 0 <= x < l.len() && 0 <= y < l.len() && x != y implies l[x].address != l[y].address by {
        assert(l[x].address == devs[x].address);
        assert(l[y].address == devs[y].address);
    }
    lemma_retry_once(l, name, a);
    if devs[k].bluetooth_state == BluetoothState::Connected {
        assert(l[k].address == a && wants_retry(l[k], name));
    }
}

/// A request for a session with a device whose link is down is refused as
/// not connected, and changes nothing, when no attempt is in flight and its
/// adapter is known and active.
pub proof fn lemma_establish_needs_link(s: ManagerState, a: Address, paired: bool)
    requires
        !s.connecting@.contains(a),
        (dev_index(s.devices@, a) matches Some(i) && s.devices@[i].bluetooth_state == BluetoothState::Disconnected
            && (adapter_index(s.adapters@, s.devices@[i].adapter_name@) matches Some(j) && s.adapters@[j].state is Active)),
    ensures
        establish_outcome(s, a, paired) == Err::<(), AirPodsError>(AirPodsError::DeviceNotConnected),
{
}

/// A request for a session with a device that has an attempt in flight is
/// refused as already connecting.
pub proof fn lemma_establish_while_connecting(s: ManagerState, a: Address, paired: bool)
    requires
        s.connecting@.contains(a),
    ensures
        establish_outcome(s, a, paired) == Err::<(), AirPodsError>(AirPodsError::AlreadyConnecting),
{
}

} // verus!
