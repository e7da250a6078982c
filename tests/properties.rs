use kairpods::address::Address;
use kairpods::device::{AirPods, UpdateOp};
use kairpods::error::AirPodsError;
use kairpods::event::AirPodsEvent;
use kairpods::history::{calculate_slope, BatteryHistory};
use kairpods::hooks::{Hooks, Hook, HookDisposition};
use kairpods::manager::{
    calc_retry_delay, retry_delay_ms, Action, AapState, BluetoothState, ManagerState,
};
use kairpods::parser::{
    parse_battery_status, parse_ear_detection, parse_metadata, parse_noise_mode, PacketKind, ProtoError,
};
use kairpods::protocol::{
    build_control_packet, pkt_handshake, pkt_request_notify, pkt_set_features, BatteryInfo, BatteryState,
    BatteryStatus, FeatureCmd, FeatureId, NoiseControlMode,
};
use kairpods::recognition::{check_manufacturer_data, is_device_airpods, name_matches, DeviceTraits};
use kairpods::study::{confidence_95, integer_sqrt, welford_update, DeviceStudy};
use kairpods::tracker::BatteryTracker;

fn battery_frame(records: &[(u8, u8, u8)]) -> Vec<u8> {
    let mut v = vec![0x04, 0x00, 0x04, 0x00, 0x04, 0x00, records.len() as u8];
    for &(id, level, status) in records {
        v.extend_from_slice(&[id, 0x01, level, status, 0x01]);
    }
    v
}

fn normal(level: u8) -> BatteryState {
    BatteryState { level, status: BatteryStatus::Normal }
}

#[test]
fn control_frame_round_trip() {
    for op in [0x0Du8, 0x34, 0xff] {
        for (payload, expected) in [
            ([0u8, 0, 0, 0], Some(FeatureCmd::Query)),
            ([1, 0, 0, 0], Some(FeatureCmd::Enable)),
            ([2, 0, 0, 0], Some(FeatureCmd::Disable)),
            ([3, 0, 0, 0], None),
            ([1, 0, 0, 1], None),
        ] {
            let frame = build_control_packet(op, payload);
            assert_eq!(frame.len(), 11);
            let parsed = FeatureCmd::parse(&frame);
            match expected {
                Some(cmd) => assert_eq!(parsed, Some((FeatureId::from_id(op), cmd))),
                None => assert_eq!(parsed, None),
            }
        }
    }
    assert_eq!(FeatureCmd::Enable.build(0x1B), vec![0x04, 0x00, 0x04, 0x00, 0x09, 0x00, 0x1B, 1, 0, 0, 0]);
}

#[test]
fn fixed_frames_are_bit_exact() {
    assert_eq!(pkt_handshake(), vec![0x00, 0x00, 0x04, 0x00, 0x01, 0x00, 0x02, 0x00, 0, 0, 0, 0, 0, 0, 0, 0]);
    assert_eq!(pkt_set_features(), vec![0x04, 0x00, 0x04, 0x00, 0x4d, 0x00, 0xff, 0x00, 0, 0, 0, 0, 0, 0]);
    assert_eq!(pkt_request_notify(), vec![0x04, 0x00, 0x04, 0x00, 0x0f, 0x00, 0xff, 0xff, 0xff, 0xff, 0xff]);
}

#[test]
fn short_frames_are_too_short() {
    assert_eq!(
        parse_battery_status(&[0x04, 0x00, 0x04, 0x00, 0x04, 0x00]),
        Err(ProtoError::PacketTooShort { expected: 7, actual: 6 })
    );
    assert_eq!(
        parse_noise_mode(&[0x04, 0x00, 0x04, 0x00, 0x09, 0x00, 0x0d]),
        Err(ProtoError::PacketTooShort { expected: 8, actual: 7 })
    );
    assert_eq!(parse_noise_mode(&[]), Err(ProtoError::PacketTooShort { expected: 8, actual: 0 }));
    assert_eq!(
        parse_ear_detection(&[0x04, 0x00, 0x04, 0x00, 0x06, 0x00, 0x01]),
        Err(ProtoError::PacketTooShort { expected: 8, actual: 7 })
    );
    let mut meta = vec![0x04, 0x00, 0x04, 0x00, 0x1d];
    meta.extend_from_slice(&[0u8; 10]);
    assert!(matches!(parse_metadata(&meta), Err(ProtoError::PacketTooShort { expected: 20, actual: 15 })));
    assert_eq!(parse_battery_status(&[0x04]), Err(ProtoError::PacketTooShort { expected: 7, actual: 1 }));
    assert_eq!(parse_battery_status(&[]), Err(ProtoError::PacketTooShort { expected: 7, actual: 0 }));
    assert_eq!(parse_ear_detection(&[]), Err(ProtoError::PacketTooShort { expected: 8, actual: 0 }));
    assert!(matches!(parse_metadata(&[0x01]), Err(ProtoError::PacketTooShort { expected: 20, actual: 1 })));
    assert_eq!(
        parse_battery_status(&[0x04, 0x00, 0x04, 0x00, 0x05, 0x00, 0x00]),
        Err(ProtoError::WrongPacketType { expected: PacketKind::BatteryStatus })
    );
    assert_eq!(
        parse_ear_detection(&[0x04, 0x00, 0x04, 0x00, 0x07, 0x00, 0x00, 0x00]),
        Err(ProtoError::WrongPacketType { expected: PacketKind::EarDetection })
    );
    assert!(matches!(parse_metadata(&[0u8; 20]), Err(ProtoError::WrongPacketType { expected: PacketKind::Metadata })));
}

#[test]
fn battery_count_and_size_are_checked() {
    let mut four = battery_frame(&[(2, 50, 0), (4, 50, 0), (8, 50, 0)]);
    four[6] = 4;
    four.extend_from_slice(&[2, 1, 50, 0, 1]);
    assert_eq!(parse_battery_status(&four), Err(ProtoError::InvalidBatteryCount { count: 4 }));

    let mut short = battery_frame(&[(2, 50, 0), (4, 50, 0)]);
    short.pop();
    assert_eq!(parse_battery_status(&short), Err(ProtoError::PacketSizeMismatch { expected: 17, actual: 16 }));
}

#[test]
fn battery_records_map_components_and_statuses() {
    let info = parse_battery_status(&battery_frame(&[(2, 80, 0x00), (4, 64, 0x02), (8, 96, 0x07), (0x10, 5, 0)])
        [..])
        .err();
    assert!(info.is_some()); // four records is too many

    let info = parse_battery_status(&battery_frame(&[(2, 80, 0x00), (4, 64, 0x02), (8, 96, 0x07)])).unwrap();
    assert_eq!(info.right, normal(80));
    assert_eq!(info.left, BatteryState { level: 64, status: BatteryStatus::Discharging });
    assert_eq!(info.case, normal(96)); // unknown status reads as Normal

    let info = parse_battery_status(&battery_frame(&[(0x10, 70, 0), (4, 30, 0x04)])).unwrap();
    assert_eq!(info, BatteryInfo::new()); // unknown component skipped, disconnected ignored
}

#[test]
fn ring_keeps_last_thirty_two() {
    let mut h = BatteryHistory::new();
    for i in 0..40u32 {
        h.record_battery_drop(200 - i as u8, 100 + i * 30);
    }
    let s = h.iter();
    assert_eq!(s.len(), 32);
    for (k, &(t, level)) in s.iter().enumerate() {
        assert_eq!(level, 200 - (k as u8 + 8));
        if k > 0 {
            assert!(t > s[k - 1].0);
        }
    }
    assert_eq!(h.last_level(), Some(161));
    h.record_battery_drop(161, 9999);
    h.record_battery_drop(170, 9999);
    assert_eq!(h.iter(), s);
    assert_eq!(h.last_level(), Some(161));
}

#[test]
fn regression_two_percent_per_hour() {
    let samples: Vec<(u32, u8)> = (0..=5u32).map(|i| (i * 3600, 100 - 2 * i as u8)).collect();
    let rate = calculate_slope(&samples).unwrap();
    assert_eq!(rate, 2_000_000);
    assert!((rate as f64 / 1e6 - 2.0).abs() < 1e-6);
}

#[test]
fn regression_without_drop_is_none() {
    let rising: Vec<(u32, u8)> = (0..6u32).map(|i| (i * 600, 50 + i as u8)).collect();
    assert_eq!(calculate_slope(&rising), None);
    let flat: Vec<(u32, u8)> = (0..6u32).map(|i| (i * 600, 50)).collect();
    assert_eq!(calculate_slope(&flat), None);
    assert_eq!(calculate_slope(&[(0, 90)]), None);
    assert_eq!(calculate_slope(&[(5, 90), (5, 80)]), None);
}

#[test]
fn ttl_none_and_cleared_when_charging_or_disconnected() {
    let mut tracker = BatteryTracker::new();
    for i in 0..6u32 {
        tracker.record_battery_drop(normal(60 - 2 * i as u8), normal(60), i * 600);
    }
    let ok = BatteryInfo { left: normal(50), right: normal(60), case: normal(90) };
    assert!(tracker.estimate_ttl(&ok, None, 3000, None).is_some());
    assert!(tracker.last_ttl_estimate.is_some());
    let gone = BatteryInfo { right: BatteryState { level: 0, status: BatteryStatus::Disconnected }, ..ok };
    assert_eq!(tracker.estimate_ttl(&gone, None, 3000, None), None);
    assert_eq!(tracker.last_ttl_estimate, None);
}

#[test]
fn ttl_from_local_rate() {
    let mut tracker = BatteryTracker::new();
    for i in 0..6u32 {
        tracker.record_battery_drop(normal(60 - 2 * i as u8), normal(60), i * 600);
    }
    let battery = BatteryInfo { left: normal(50), right: normal(60), case: normal(90) };
    let ttl = tracker.estimate_ttl(&battery, Some(NoiseControlMode::NC), 3000, None).unwrap();
    assert_eq!(ttl, 250);
    assert!((200..=300).contains(&ttl));
    // smoothing against the previous estimate
    let ttl2 = tracker.estimate_ttl(&battery, Some(NoiseControlMode::NC), 3000, None).unwrap();
    assert_eq!(ttl2, 250);
}

#[test]
fn ttl_combines_stored_rate() {
    let mut study = DeviceStudy::new("pods".to_string(), 0);
    study.update_drain_rate(NoiseControlMode::Trans, 20_000_000, 10, 0);
    let mut tracker = BatteryTracker::new();
    let battery = BatteryInfo { left: normal(50), right: normal(60), case: normal(90) };
    // only the stored rate: 20 %/h, found by falling through the modes
    assert_eq!(tracker.estimate_ttl(&battery, Some(NoiseControlMode::NC), 10, Some(&study)), Some(150));
    assert!(tracker.cache.trans.is_some());
    // combined with a local 12 %/h from six samples: weight 0.7, loose confidence -> 0.85
    let mut t2 = BatteryTracker::new();
    for i in 0..6u32 {
        t2.record_battery_drop(normal(60 - 2 * i as u8), normal(60), i * 600);
    }
    assert_eq!(
        BatteryTracker::combine_drain_rates(Some((12_000_000, 100)), Some((20_000_000, None)), 6),
        Some((13_200_000, 300))
    );
    assert_eq!(
        BatteryTracker::combine_drain_rates(Some((12_000_000, 100)), Some((20_000_000, Some(500_000))), 6),
        Some((15_520_000, 300))
    );
    assert_eq!(BatteryTracker::combine_drain_rates(None, Some((20_000_000, Some(4_000_000))), 0), Some((20_000_000, 500)));
    assert_eq!(BatteryTracker::combine_drain_rates(None, None, 0), None);
    assert_eq!(t2.estimate_ttl(&battery, None, 3000, Some(&study)), Some(193));
}

#[test]
fn charging_clears_history_end_to_end() {
    let mut dev = AirPods::new(Address::new([1, 2, 3, 4, 5, 6]), "pods".to_string());
    for (k, level) in [90u8, 88, 86].iter().enumerate() {
        let ev = dev.process_packet(&battery_frame(&[(2, *level, 0), (4, *level, 0), (8, 100, 0)]), k as u32 * 600);
        assert_eq!(ev.len(), 1);
    }
    assert_eq!(dev.tracker.left_history.len(), 3);
    dev.process_packet(&battery_frame(&[(2, 86, 0), (4, 87, 0x01), (8, 100, 0)]), 1200);
    assert_eq!(dev.tracker.left_history.len(), 0);
    assert_eq!(dev.tracker.right_history.len(), 3);
}

#[test]
fn handshake_path() {
    let addr = Address::new([0xAA, 0xBB, 0xCC, 0xDD, 0xEE, 0xFF]);
    let mut mgr = ManagerState::new();
    mgr.adapter_initialized("hci0".to_string());
    assert_eq!(mgr.add_device(addr, "hci0".to_string()).len(), 1);
    let (res, actions) = mgr.establish_aap(addr, true);
    assert!(res.is_ok());
    assert!(matches!(actions[..], [Action::SpawnSession(a)] if a == addr));
    let mut dev = AirPods::new(addr, "pods".to_string());
    assert!(dev.process_packet(&[0x01, 0x00, 0x04, 0x00], 0).is_empty());
    assert!(dev.process_packet(&[0x04, 0x00, 0x04, 0x00, 0x2b, 0x00], 0).is_empty());
    let connected = mgr.aap_connected(addr);
    dev.set_connected(true);
    assert_eq!(connected.len(), 1);
    assert!(matches!(connected[0], Action::Emit(a, AirPodsEvent::DeviceConnected) if a == addr));
    let frame = [
        0x04, 0x00, 0x04, 0x00, 0x04, 0x00, 0x03, 0x02, 0x01, 0x50, 0x00, 0x01, 0x04, 0x01, 0x40, 0x01, 0x01, 0x08, 0x01,
        0x60, 0x00, 0x01,
    ];
    let ev = dev.process_packet(&frame, 0);
    assert_eq!(ev.len(), 1);
    match &ev[0] {
        AirPodsEvent::BatteryUpdated(b) => {
            assert_eq!(b.left.level, 64);
            assert_eq!(b.right.level, 80);
            assert_eq!(b.case.level, 96);
            assert_eq!(b.right.status, BatteryStatus::Normal);
            assert_eq!(b.case.status, BatteryStatus::Normal);
            // status byte 0x01 on the left record means charging
            assert_eq!(b.left.status, BatteryStatus::Charging);
        },
        other => panic!("unexpected event {:?}", other),
    }
    assert!(dev.is_connected());
    assert_eq!(mgr.devices[0].aap_state, AapState::Connected);
}

#[test]
fn noise_mode_update_once() {
    let mut dev = AirPods::new(Address::new([1, 1, 1, 1, 1, 1]), "pods".to_string());
    let frame = [0x04, 0x00, 0x04, 0x00, 0x09, 0x00, 0x0d, 0x02];
    let ev = dev.process_packet(&frame, 0);
    assert_eq!(ev.len(), 1);
    assert!(matches!(ev[0], AirPodsEvent::NoiseControlChanged(NoiseControlMode::NC)));
    assert!(dev.process_packet(&frame, 1).is_empty());
    assert_eq!(dev.noise_mode(), Some(NoiseControlMode::NC));
    assert!(matches!(dev.update_noise_mode(Some(NoiseControlMode::Off)), UpdateOp::Updated(NoiseControlMode::NC)));
}

#[test]
fn ear_detection_and_feature_frames() {
    let mut dev = AirPods::new(Address::new([1, 1, 1, 1, 1, 2]), "pods".to_string());
    let ev = dev.process_packet(&[0x04, 0x00, 0x04, 0x00, 0x06, 0x00, 0x01, 0x00], 0);
    assert_eq!(ev.len(), 1);
    let e = dev.ear_detection().unwrap();
    assert!(!e.is_left_in_ear());
    assert!(e.is_right_in_ear());
    assert_eq!(e.bits(), 0x82);
    // feature command from the device: enable 0x34
    dev.process_packet(&[0x04, 0x00, 0x04, 0x00, 0x09, 0x00, 0x34, 1, 0, 0, 0], 0);
    assert!(dev.feature_enabled(FeatureId::from_id(0x34)));
    assert_eq!(dev.features(), vec![(FeatureId::from_id(0x34), true)]);
    dev.process_packet(&[0x04, 0x00, 0x04, 0x00, 0x09, 0x00, 0x34, 2, 0, 0, 0], 0);
    assert!(!dev.feature_enabled(FeatureId::from_id(0x34)));
    assert_eq!(dev.features(), vec![(FeatureId::from_id(0x34), false)]);
}

#[test]
fn metadata_proposes_a_name() {
    let mut frame = vec![0x04, 0x00, 0x04, 0x00, 0x1d, 0x00, 0xff, 0xfe];
    frame.extend_from_slice(b" Pods Pro 2 ");
    frame.extend_from_slice(&[0u8; 6]);
    let meta = parse_metadata(&frame).unwrap();
    assert_eq!(meta.name_candidate.as_deref(), Some("Pods Pro"));
    let mut dev = AirPods::new(Address::new([1, 1, 1, 1, 1, 3]), "old".to_string());
    let ev = dev.process_packet(&frame, 0);
    assert!(matches!(&ev[..], [AirPodsEvent::DeviceNameChanged(n)] if n == "Pods Pro"));
    assert_eq!(dev.name(), "Pods Pro");
    let none = parse_metadata(&[0x04, 0x00, 0x04, 0x00, 0x1d, 0, 1, 2, 3, 4, 5, 6, 7, 8, 9, 10, 11, 12, 13, 14]).unwrap();
    assert!(none.name_candidate.is_none());
}

#[test]
fn establish_refusals() {
    let a = Address::new([9, 9, 9, 9, 9, 9]);
    let mut mgr = ManagerState::new();
    mgr.adapter_initialized("hci0".to_string());
    mgr.add_device(a, "hci0".to_string());
    mgr.bluetooth_disconnected(a);
    let (res, actions) = mgr.establish_aap(a, true);
    assert!(matches!(res, Err(AirPodsError::DeviceNotConnected)));
    assert!(actions.is_empty());
    assert_eq!(mgr.devices[0].aap_state, AapState::Disconnected);

    mgr.bluetooth_connected(a);
    assert!(matches!(mgr.establish_aap(a, false).0, Err(AirPodsError::DeviceNotPaired)));
    assert!(mgr.establish_aap(a, true).0.is_ok());
    let (res, actions) = mgr.establish_aap(a, true);
    assert!(matches!(res, Err(AirPodsError::AlreadyConnecting)));
    assert!(actions.is_empty());
    let other = Address::new([1, 2, 3, 4, 5, 6]);
    assert!(matches!(mgr.establish_aap(other, true).0, Err(AirPodsError::DeviceNotFound(x)) if x == other));
}

#[test]
fn adapter_loss_and_recovery() {
    let a = Address::new([1, 0, 0, 0, 0, 1]);
    let b = Address::new([1, 0, 0, 0, 0, 2]);
    let c = Address::new([1, 0, 0, 0, 0, 3]);
    let mut mgr = ManagerState::new();
    mgr.adapter_initialized("hci0".to_string());
    mgr.adapter_initialized("hci1".to_string());
    mgr.add_device(a, "hci0".to_string());
    mgr.add_device(b, "hci0".to_string());
    mgr.add_device(c, "hci1".to_string());
    assert!(mgr.establish_aap(a, true).0.is_ok());
    let lost = mgr.adapter_lost(&"hci0".to_string());
    let errors = |x: Address| lost.iter().filter(|act| matches!(act, Action::Emit(y, AirPodsEvent::DeviceError) if *y == x)).count();
    assert_eq!(errors(a), 1);
    assert_eq!(errors(b), 1);
    assert_eq!(errors(c), 0);
    assert!(lost.iter().any(|act| matches!(act, Action::AbortSession(y) if *y == a)));
    assert!(matches!(lost.last(), Some(Action::ScheduleAdapterRecovery(n, 1)) if n == "hci0"));
    assert!(matches!(mgr.devices[0].aap_state, AapState::Failed(_)));
    assert!(matches!(mgr.devices[1].aap_state, AapState::Failed(_)));
    assert_eq!(mgr.devices[2].aap_state, AapState::Disconnected);
    assert!(mgr.needs_initialization(&"hci0".to_string()));

    let back = mgr.adapter_available(&"hci0".to_string());
    let tries = |x: Address| back.iter().filter(|act| matches!(act, Action::TryEstablish(y) if *y == x)).count();
    assert_eq!(tries(a), 1);
    assert_eq!(tries(b), 1);
    assert_eq!(tries(c), 0);
    assert!(!mgr.needs_initialization(&"hci0".to_string()));
    assert!(matches!(mgr.adapter_available(&"hci9".to_string())[..], [Action::InitializeAdapter(ref n)] if n == "hci9"));
}

#[test]
fn retry_delays() {
    let expected = [2_000u64, 4_000, 8_000, 16_000, 32_000, 32_000];
    for k in 0..=5u32 {
        assert_eq!(retry_delay_ms(k, 0), expected[k as usize]);
        assert_eq!(retry_delay_ms(k, 999), expected[k as usize] + 999);
        for _ in 0..20 {
            let d = calc_retry_delay(k);
            assert!(d >= expected[k as usize] && d < expected[k as usize] + 1000);
        }
    }
    assert!(calc_retry_delay(u32::MAX) < 121_000);
}

#[test]
fn transport_loss_mid_session() {
    let a = Address::new([2, 0, 0, 0, 0, 1]);
    let mut mgr = ManagerState::new();
    mgr.adapter_initialized("hci0".to_string());
    mgr.add_device(a, "hci0".to_string());
    assert!(mgr.establish_aap(a, true).0.is_ok());
    mgr.aap_connected(a);
    let actions = mgr.aap_disconnected(a, true);
    assert_eq!(mgr.devices[0].aap_state, AapState::WaitingToReconnect);
    assert!(matches!(actions[..], [Action::ScheduleSessionRetry(x, 1)] if x == a));
    let d = calc_retry_delay(1);
    assert!((4_000..5_000).contains(&d));
    // the session may be requested again
    assert!(mgr.establish_aap(a, true).0.is_ok());

    let gone = mgr.bluetooth_disconnected(a);
    let disconnects = gone.iter().filter(|x| matches!(x, Action::Emit(_, AirPodsEvent::DeviceDisconnected))).count();
    assert_eq!(disconnects, 1);
    assert_eq!(mgr.devices[0].bluetooth_state, BluetoothState::Disconnected);
    assert!(mgr.aap_disconnected(a, true).is_empty());
    assert_eq!(mgr.devices[0].aap_state, AapState::Disconnected);
    assert_eq!(mgr.health_edge(a, true), Some(BluetoothState::Connected));
    assert_eq!(mgr.device_lost(a).len(), 1);
    assert_eq!(mgr.count_devices(), 0);
}

#[test]
fn durable_update_convergence() {
    let mut study = DeviceStudy::new("pods".to_string(), 0);
    study.increment_session(1);
    study.update_drain_rate(NoiseControlMode::Adapt, 10_000_000, 10, 1);
    study.increment_session(2);
    study.update_drain_rate(NoiseControlMode::Adapt, 14_000_000, 10, 2);
    let (mean, ci) = study.drain_rate(NoiseControlMode::Adapt).unwrap();
    assert_eq!(mean, 12_000_000);
    let ci = ci.unwrap();
    assert_eq!(ci, 876_538);
    study.update_drain_rate(NoiseControlMode::Adapt, 12_000_000, 10, 3);
    let (mean, ci3) = study.drain_rate(NoiseControlMode::Adapt).unwrap();
    assert_eq!(mean, 12_000_000);
    assert!(ci3.unwrap() < ci);
    assert_eq!(study.total_sessions, 2);
    assert_eq!(study.total_samples, 30);
    assert_eq!(study.drain_rates.len(), 1);
}

#[test]
fn welford_and_confidence_values() {
    let s = welford_update(None, 10_000_000, 4, 7);
    assert_eq!((s.rate, s.variance, s.samples, s.last_updated), (10_000_000, 0, 4, 7));
    let s = welford_update(Some(s), 20_000_000, 4, 8);
    assert_eq!(s.rate, 15_000_000);
    assert_eq!(s.variance, 25_000_000_000_000);
    assert_eq!(confidence_95(0, 1), None);
    assert_eq!(confidence_95(100, 1), None);
    assert_eq!(confidence_95(10_000, 4), Some(98));
    assert_eq!(integer_sqrt(0), 0);
    assert_eq!(integer_sqrt(15), 3);
    assert_eq!(integer_sqrt(16), 4);
    assert_eq!(integer_sqrt(u128::MAX), u64::MAX);
}

#[test]
fn recognition_rules() {
    let empty = || DeviceTraits { modalias: None, apple_data: None, uuids: None, name: None, alias: None };
    assert!(is_device_airpods(&DeviceTraits { modalias: Some((0x004C, 0x2014)), ..empty() }));
    assert!(!is_device_airpods(&DeviceTraits { name: Some(b"EarPods".to_vec()), ..empty() }));
    assert!(!is_device_airpods(&DeviceTraits { modalias: Some((0x004C, 0x1000)), ..empty() }));
    assert!(is_device_airpods(&DeviceTraits {
        apple_data: Some(vec![0x07, 0x19, 0x01, 0x02, 0x03, 0x04, 0x14]),
        ..empty()
    }));
    assert!(check_manufacturer_data(&[0x07, 0, 0, 0, 0, 0, 0x24]));
    assert!(!check_manufacturer_data(&[0x07, 0, 0, 0, 0, 0]));
    assert!(!check_manufacturer_data(&[0x10, 0, 0, 0, 0, 0, 0x14]));
    assert!(is_device_airpods(&DeviceTraits {
        uuids: Some(vec![0x1234, 0x0000fd39_0000_1000_8000_00805f9b34fb]),
        ..empty()
    }));
    assert!(is_device_airpods(&DeviceTraits { alias: Some(b"Kim's AIRPODS Pro".to_vec()), ..empty() }));
    assert!(name_matches(b"Powerbeats Pro"));
    assert!(!name_matches(b"airpod"));
}

#[test]
fn hooks_fire_once_in_order() {
    let mut hooks = Hooks::new()
        .prefix_once(&[0x01, 0x00, 0x04, 0x00], 1)
        .prefix_once(&[0x04, 0x00, 0x04, 0x00, 0x2b], 2)
        .install(Hook { disposition: HookDisposition::Retain, ..Hook::once(3).prefix(&[0x04]) });
    assert_eq!(hooks.passthrough(&[0x04, 0x00, 0x04, 0x00, 0x2b, 0x00]), vec![2, 3]);
    assert_eq!(hooks.passthrough(&[0x04, 0x00, 0x04, 0x00, 0x2b, 0x00]), vec![3]);
    assert_eq!(hooks.passthrough(&[0x01, 0x00, 0x04, 0x00]), vec![1]);
    assert_eq!(hooks.passthrough(&[0x01, 0x00, 0x04, 0x00]), Vec::<u32>::new());
    assert_eq!(hooks.hooks.len(), 1);
    assert_eq!(hooks.hooks[0].id, 3);
    assert_eq!(hooks.hooks[0].prefix.as_slice(), &[0x04]);
}

#[test]
fn names_and_text() {
    assert_eq!(FeatureId::from_id(0x34).to_str(), "allow_off");
    assert_eq!(FeatureId::from_id(0xA7).to_str(), "a7");
    assert_eq!(FeatureId::from_id(0x05).to_str(), "05");
    assert_eq!(FeatureId::from_id(0x0D).try_to_str(), Some("noise_control"));
    assert_eq!(FeatureId::from_id(0x47).bitpos(), (1, 1u64 << 7));
    assert_eq!(NoiseControlMode::Trans.to_str(), "trans");
    let addr = Address::new([0xAA, 0xBB, 0x0C, 0xDD, 0xEE, 0x01]);
    assert_eq!(addr.value, 0xAABB0CDDEE01);
    assert_eq!(addr.to_text(), "AA:BB:0C:DD:EE:01");
    assert_eq!(addr.bytes(), [0xAA, 0xBB, 0x0C, 0xDD, 0xEE, 0x01]);
    assert_eq!(AirPodsError::DeviceNotConnected.describe(), "Device not connected");
}

#[test]
fn commands_need_a_session() {
    let mut dev = AirPods::new(Address::new([3, 3, 3, 3, 3, 3]), "pods".to_string());
    assert!(matches!(dev.noise_control_command(NoiseControlMode::NC), Err(AirPodsError::DeviceNotConnected)));
    assert!(matches!(dev.feature_command(FeatureId::from_id(0x34), true), Err(AirPodsError::DeviceNotConnected)));
    dev.set_connected(true);
    assert_eq!(
        dev.noise_control_command(NoiseControlMode::Adapt).unwrap(),
        vec![0x04, 0x00, 0x04, 0x00, 0x09, 0x00, 0x0D, 4, 0, 0, 0]
    );
    assert_eq!(
        dev.feature_command(FeatureId::from_id(0x34), false).unwrap(),
        vec![0x04, 0x00, 0x04, 0x00, 0x09, 0x00, 0x34, 2, 0, 0, 0]
    );
}

#[test]
fn default_ttl_and_periodic_save() {
    let mut dev = AirPods::new(Address::new([4, 4, 4, 4, 4, 4]), "pods".to_string());
    assert_eq!(dev.estimate_battery_ttl(0, None), None);
    dev.process_packet(&battery_frame(&[(2, 50, 0), (4, 60, 0)]), 0);
    // no local or stored rate: 50 % at 16.9 %/h
    assert_eq!(dev.estimate_battery_ttl(0, None), Some(177));
    dev.set_connected(true);
    for i in 1..6u32 {
        dev.process_packet(&battery_frame(&[(2, 50 - i as u8, 0), (4, 60 - i as u8, 0)]), i * 600);
    }
    assert!(!dev.should_save_battery_study(5, 200));
    assert!(dev.should_save_battery_study(5, 3000));
    let batch = dev.tick(3000).unwrap();
    assert_eq!(batch.0, NoiseControlMode::Off);
    assert_eq!(batch.1, 6_000_000);
    assert_eq!(batch.2, 6);
    assert_eq!(dev.tracker.left_history.len(), 5);
}

#[test]
fn hook_builder() {
    let h = Hook::once(7).prefix(&[0x01, 0x02]);
    assert_eq!(h.id, 7);
    assert_eq!(h.prefix.as_slice(), &[0x01, 0x02]);
    assert_eq!(h.disposition, HookDisposition::Discard);
    assert_eq!(h.passthrough(&[0x01, 0x02, 0x03]), (true, HookDisposition::Discard));
    assert_eq!(h.passthrough(&[0x01]), (false, HookDisposition::Retain));
    assert_eq!(Hook::once(1).passthrough(&[]), (true, HookDisposition::Discard));
}

#[test]
fn smoothing_factor_follows_the_main_source() {
    // count below four: local weight 0, loose confidence -> 0.5, not mainly local
    assert_eq!(
        BatteryTracker::combine_drain_rates(Some((12_000_000, 100)), Some((20_000_000, None)), 3),
        Some((16_000_000, 700))
    );
    assert_eq!(BatteryTracker::combine_drain_rates(Some((12_000_000, 100)), None, 6), Some((12_000_000, 300)));
    assert_eq!(BatteryTracker::combine_drain_rates(None, Some((20_000_000, None)), 0), Some((20_000_000, 700)));
}

#[test]
fn adapter_loss_clears_attempts_in_flight() {
    let a = Address::new([5, 0, 0, 0, 0, 1]);
    let mut mgr = ManagerState::new();
    mgr.adapter_initialized("hci0".to_string());
    mgr.add_device(a, "hci0".to_string());
    assert!(mgr.establish_aap(a, true).0.is_ok());
    assert_eq!(mgr.connecting.len(), 1);
    mgr.adapter_lost(&"hci0".to_string());
    assert!(mgr.connecting.is_empty());
    let back = mgr.adapter_available(&"hci0".to_string());
    assert_eq!(back.iter().filter(|x| matches!(x, Action::TryEstablish(y) if *y == a)).count(), 1);
    assert!(mgr.establish_aap(a, true).0.is_ok());
}

#[test]
fn metadata_window_must_be_printable() {
    // every window holding the letters also holds a control byte
    let mut frame = vec![0x04, 0x00, 0x04, 0x00, 0x1d, 0x00];
    frame.extend_from_slice(&[0x01, b'a', b'b', b'c', 0x01, b'd', b'e', b'f', 0x01, b'g', b'h', b'i', 0x01, 0x02]);
    assert_eq!(frame.len(), 20);
    assert!(parse_metadata(&frame).unwrap().name_candidate.is_none());
    // trimming removes non-ASCII white space too (U+3000 is three bytes)
    let mut frame = vec![0x04, 0x00, 0x04, 0x00, 0x1d, 0x00, 0xe3, 0x80, 0x80];
    frame.extend_from_slice(b"Buds   ");
    frame.extend_from_slice(&[0x80u8; 5]);
    let meta = parse_metadata(&frame).unwrap();
    assert_eq!(meta.name_candidate.as_deref(), Some("Buds"));
}

#[test]
fn recent_samples_filters_by_cutoff() {
    let s: Vec<(u32, u8)> = vec![(10, 90), (20, 80), (30, 70)];
    let kept = kairpods::history::recent_samples(&s, Some(20));
    assert_eq!(kept.as_slice(), &[(20, 80), (30, 70)]);
    assert_eq!(kairpods::history::recent_samples(&s, None).as_slice(), &s[..]);
}
