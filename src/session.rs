//! Opening a control session: the handshake sequence and the retries of
//! the notification request, as decisions on events the runtime reports.

use vstd::prelude::*;
use crate::protocol::{
    handshake_frame, pkt_handshake, pkt_request_notify, pkt_set_features, request_notify_frame, set_features_frame,
};

verus! {

/// Milliseconds to wait for an acknowledgement.
pub const ACK_TIMEOUT_MS: u64 = 5000;

/// Milliseconds before the first notification check.
pub const NOTIFY_FIRST_CHECK_MS: u64 = 1000;

/// Where the sequence stands.
#[derive(Debug, Clone, Copy, PartialEq, Eq, Structural)]
pub enum ConnectStage {
    SendingHandshake,
    AwaitingHandshakeAck,
    SendingFeatures,
    AwaitingFeaturesAck,
    SendingNotify,
    Established,
    Failed,
}

/// Which acknowledgement is awaited.
#[derive(Debug, Clone, Copy, PartialEq, Eq, Structural)]
pub enum AckKind {
    Handshake,
    Features,
}

/// What the runtime reports.
#[derive(Debug, Clone, Copy, PartialEq, Eq, Structural)]
pub enum ConnectEvent {
    /// The last frame was written, or the write failed.
    Sent(bool),
    /// The awaited acknowledgement arrived.
    AckReceived,
    /// The awaited acknowledgement did not arrive in time.
    AckTimedOut,
}

/// What the runtime does next.
#[derive(Debug, Clone)]
pub enum ConnectAction {
    /// Write this frame.
    Send(Vec<u8>),
    /// Wait for an acknowledgement, at most this many milliseconds.
    AwaitAck(AckKind, u64),
    /// The session is up: start the packet processor and the retry task.
    Established,
    /// A write failed: give up the session.
    Abort,
    /// Nothing to do for this event.
    Ignore,
}

/// The next stage and what to do, for an event in a stage. A missing
/// acknowledgement does not stop the sequence; a failed write does.
pub open spec fn connect_step(stage: ConnectStage, ev: ConnectEvent) -> (ConnectStage, Option<Seq<u8>>, bool) {
    match (stage, ev) {
        (ConnectStage::SendingHandshake, ConnectEvent::Sent(true)) => (ConnectStage::AwaitingHandshakeAck, None, false),
        (ConnectStage::AwaitingHandshakeAck, ConnectEvent::AckReceived) => (ConnectStage::SendingFeatures, Some(set_features_frame()), false),
        (ConnectStage::AwaitingHandshakeAck, ConnectEvent::AckTimedOut) => (ConnectStage::SendingFeatures, Some(set_features_frame()), false),
        (ConnectStage::SendingFeatures, ConnectEvent::Sent(true)) => (ConnectStage::AwaitingFeaturesAck, None, false),
        (ConnectStage::AwaitingFeaturesAck, ConnectEvent::AckReceived) => (ConnectStage::SendingNotify, Some(request_notify_frame()), false),
        (ConnectStage::AwaitingFeaturesAck, ConnectEvent::AckTimedOut) => (ConnectStage::SendingNotify, Some(request_notify_frame()), false),
        (ConnectStage::SendingNotify, ConnectEvent::Sent(true)) => (ConnectStage::Established, None, false),
        (ConnectStage::SendingHandshake, ConnectEvent::Sent(false)) => (ConnectStage::Failed, None, true),
        (ConnectStage::SendingFeatures, ConnectEvent::Sent(false)) => (ConnectStage::Failed, None, true),
        (ConnectStage::SendingNotify, ConnectEvent::Sent(false)) => (ConnectStage::Failed, None, true),
        _ => (stage, None, false),
    }
}

/// The handshake sequence of one session.
#[derive(Debug)]
pub struct Handshake {
    pub stage: ConnectStage,
}

impl Handshake {
    /// Starts the sequence: the handshake frame is written first.
    pub fn start() -> (r: (Handshake, ConnectAction))
        ensures
            r.0.stage == ConnectStage::SendingHandshake,
            r.1 matches ConnectAction::Send(f) && f@ == handshake_frame(),
    {
        (Handshake { stage: ConnectStage::SendingHandshake }, ConnectAction::Send(pkt_handshake()))
    }

    /// Advances on an event.
    pub fn step(&mut self, ev: ConnectEvent) -> (r: ConnectAction)
        ensures
            final(self).stage == connect_step(old(self).stage, ev).0,
            connect_step(old(self).stage, ev).1 matches Some(f) ==> (r matches ConnectAction::Send(g) && g@ == f),
            connect_step(old(self).stage, ev).2 ==> r is Abort,
            final(self).stage == ConnectStage::AwaitingHandshakeAck && old(self).stage != final(self).stage ==> r
                == ConnectAction::AwaitAck(AckKind::Handshake, ACK_TIMEOUT_MS),
            final(self).stage == ConnectStage::AwaitingFeaturesAck && old(self).stage != final(self).stage ==> r
                == ConnectAction::AwaitAck(AckKind::Features, ACK_TIMEOUT_MS),
            final(self).stage == ConnectStage::Established && old(self).stage != final(self).stage ==> r is Established,
            final(self).stage == old(self).stage ==> r is Ignore,
    {
        match (self.stage, ev) {
            (ConnectStage::SendingHandshake, ConnectEvent::Sent(true)) => {
                self.stage = ConnectStage::AwaitingHandshakeAck;
                ConnectAction::AwaitAck(AckKind::Handshake, ACK_TIMEOUT_MS)
            },
            (ConnectStage::AwaitingHandshakeAck, ConnectEvent::AckReceived)
            | (ConnectStage::AwaitingHandshakeAck, ConnectEvent::AckTimedOut) => {
                self.stage = ConnectStage::SendingFeatures;
                ConnectAction::Send(pkt_set_features())
            },
            (ConnectStage::SendingFeatures, ConnectEvent::Sent(true)) => {
                self.stage = ConnectStage::AwaitingFeaturesAck;
                ConnectAction::AwaitAck(AckKind::Features, ACK_TIMEOUT_MS)
            },
            (ConnectStage::AwaitingFeaturesAck, ConnectEvent::AckReceived)
            | (ConnectStage::AwaitingFeaturesAck, ConnectEvent::AckTimedOut) => {
                self.stage = ConnectStage::SendingNotify;
                ConnectAction::Send(pkt_request_notify())
            },
            (ConnectStage::SendingNotify, ConnectEvent::Sent(true)) => {
                self.stage = ConnectStage::Established;
                ConnectAction::Established
            },
            (ConnectStage::SendingHandshake, ConnectEvent::Sent(false))
            | (ConnectStage::SendingFeatures, ConnectEvent::Sent(false))
            | (ConnectStage::SendingNotify, ConnectEvent::Sent(false)) => {
                self.stage = ConnectStage::Failed;
                ConnectAction::Abort
            },
            _ => ConnectAction::Ignore,
        }
    }
}

/// Waits, in milliseconds, between the notification retries.
pub open spec fn notify_retry_delays() -> Seq<u64> {
    seq![2000u64, 3000, 5000, 10000]
}

/// Decision of the notification retry task at check `i` (counting from 0):
/// stop once battery state has arrived or the schedule is spent; otherwise
/// send the request again and wait the scheduled delay.
pub fn notify_retry(i: usize, battery_known: bool) -> (r: Option<u64>)
    ensures
        battery_known || i >= 4 ==> r is None,
        !battery_known && i < 4 ==> r == Some(notify_retry_delays()[i as int]),
{
    if battery_known || i >= 4 {
        return None;
    }
    let delays: [u64; 4] = [2000, 3000, 5000, 10000];
    assert(delays@ =~= notify_retry_delays());
    Some(delays[i])
}

} // verus!
