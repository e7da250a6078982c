use kairpods::config::{default_notification_retries, default_poll_interval, default_reconnect_delay, default_retry_count, Config, KnownDevice};
use kairpods::history::SecondsSinceInit;
use kairpods::protocol::{pkt_handshake, pkt_request_notify, pkt_set_features, FeatureId, NoiseControlMode};
use kairpods::session::{notify_retry, AckKind, ConnectAction, ConnectEvent, ConnectStage, Handshake, ACK_TIMEOUT_MS};

#[test]
fn handshake_sequence_continues_without_acks() {
    let (mut hs, first) = Handshake::start();
    assert!(matches!(first, ConnectAction::Send(ref f) if *f == pkt_handshake()));
    assert!(matches!(hs.step(ConnectEvent::Sent(true)), ConnectAction::AwaitAck(AckKind::Handshake, ACK_TIMEOUT_MS)));
    assert!(matches!(hs.step(ConnectEvent::AckTimedOut), ConnectAction::Send(ref f) if *f == pkt_set_features()));
    assert!(matches!(hs.step(ConnectEvent::Sent(true)), ConnectAction::AwaitAck(AckKind::Features, 5000)));
    assert!(matches!(hs.step(ConnectEvent::AckReceived), ConnectAction::Send(ref f) if *f == pkt_request_notify()));
    assert!(matches!(hs.step(ConnectEvent::Sent(true)), ConnectAction::Established));
    assert_eq!(hs.stage, ConnectStage::Established);
    assert!(matches!(hs.step(ConnectEvent::AckReceived), ConnectAction::Ignore));
}

#[test]
fn handshake_sequence_aborts_on_write_failure() {
    let (mut hs, _) = Handshake::start();
    hs.step(ConnectEvent::Sent(true));
    hs.step(ConnectEvent::AckReceived);
    assert!(matches!(hs.step(ConnectEvent::Sent(false)), ConnectAction::Abort));
    assert_eq!(hs.stage, ConnectStage::Failed);
}

#[test]
fn notify_retry_schedule() {
    assert_eq!(notify_retry(0, false), Some(2000));
    assert_eq!(notify_retry(1, false), Some(3000));
    assert_eq!(notify_retry(2, false), Some(5000));
    assert_eq!(notify_retry(3, false), Some(10000));
    assert_eq!(notify_retry(4, false), None);
    assert_eq!(notify_retry(0, true), None);
}

#[test]
fn config_defaults_and_known_devices() {
    let mut c = Config::new();
    assert_eq!(c.poll_interval, 30);
    assert_eq!(c.connection_retry_count, 10);
    assert_eq!(c.reconnect_delay_sec, 10);
    assert_eq!(c.notification_retries, 3);
    assert!(c.log_filter.is_none());
    assert_eq!(Config::default().poll_interval, default_poll_interval());
    assert_eq!(default_retry_count(), 10);
    assert_eq!(default_reconnect_delay(), 10);
    assert_eq!(default_notification_retries(), 3);
    c.known_devices.push(KnownDevice { address: "AA:BB:CC:DD:EE:FF".to_string(), name: "Pods".to_string() });
    c.known_devices.push(KnownDevice { address: "AA:BB:CC:DD:EE:FF".to_string(), name: "Later".to_string() });
    assert_eq!(c.is_known_device(&"AA:BB:CC:DD:EE:FF".to_string()).map(|s| s.as_str()), Some("Pods"));
    assert!(c.is_known_device(&"00:00:00:00:00:00".to_string()).is_none());
}

#[test]
fn names_of_modes_and_features() {
    assert_eq!(NoiseControlMode::from_name(b"off"), Some(NoiseControlMode::Off));
    assert_eq!(NoiseControlMode::from_name(b"nc"), Some(NoiseControlMode::NC));
    assert_eq!(NoiseControlMode::from_name(b"transparency"), Some(NoiseControlMode::Trans));
    assert_eq!(NoiseControlMode::from_name(b"trans"), Some(NoiseControlMode::Trans));
    assert_eq!(NoiseControlMode::from_name(b"adaptive"), Some(NoiseControlMode::Adapt));
    assert_eq!(NoiseControlMode::from_name(b"adapt"), Some(NoiseControlMode::Adapt));
    assert_eq!(NoiseControlMode::from_name(b"Off"), None);
    assert_eq!(NoiseControlMode::from_repr(3), Some(NoiseControlMode::Trans));
    assert_eq!(NoiseControlMode::Adapt.repr(), 4);
    assert_eq!(FeatureId::from_name(b"Allow_Off"), Some(FeatureId::from_id(0x34)));
    assert_eq!(FeatureId::from_name(b"noise_control"), Some(FeatureId::from_id(0x0D)));
    assert_eq!(FeatureId::from_name(b"nothing"), None);
}

#[test]
fn seconds_since_saturates() {
    let a = SecondsSinceInit::new(100);
    let b = SecondsSinceInit::new(40);
    assert_eq!(a.seconds_since(b), 60);
    assert_eq!(b.seconds_since(a), 0);
}
