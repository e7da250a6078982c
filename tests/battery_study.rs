use kairpods::history::{BatteryHistory, BATTERY_HISTORY_SIZE};
use kairpods::protocol::{BatteryInfo, BatteryState, BatteryStatus, NoiseControlMode};
use kairpods::study::DeviceStudy;
use kairpods::tracker::BatteryTracker;

fn mock_state(level: u8, is_charging: bool) -> BatteryState {
    if is_charging {
        BatteryState { level, status: BatteryStatus::Charging }
    } else {
        BatteryState { level, status: BatteryStatus::Normal }
    }
}

#[test]
fn test_create_and_get_study() {
    let study = DeviceStudy::new("Test AirPods".to_string(), 1_700_000_000);
    assert_eq!(study.device_name, "Test AirPods");
    assert_eq!(study.total_sessions, 0);
    assert_eq!(study.total_samples, 0);
}

#[test]
fn test_update_drain_rate() {
    let mut study = DeviceStudy::new("Test AirPods".to_string(), 1_700_000_000);
    study.update_drain_rate(NoiseControlMode::NC, 12_500_000, 10, 1_700_000_100);

    let (rate, confidence) = study.drain_rate(NoiseControlMode::NC).unwrap();
    assert!((rate as i64 - 12_500_000).abs() < 1000);
    assert_eq!(confidence, Some(0)); // First update has zero variance

    // Add another sample
    study.update_drain_rate(NoiseControlMode::NC, 11_500_000, 10, 1_700_000_200);
    let (rate, confidence) = study.drain_rate(NoiseControlMode::NC).unwrap();
    assert!((rate as i64 - 12_000_000).abs() < 1000); // Average of 12.5 and 11.5
    assert!(confidence.is_some()); // Now we have variance
}

#[test]
fn test_battery_history_ring_buffer() {
    let mut history = BatteryHistory::new();
    let base_time: u32 = 1000;

    assert_eq!(history.len(), 0);
    assert!(history.last_level().is_none());

    for i in 0..5u32 {
        history.push(base_time + i * 60, 100 - i as u8);
    }

    assert_eq!(history.len(), 5);
    assert_eq!(history.last_level(), Some(96));

    let samples = history.iter();
    assert_eq!(samples.len(), 5);
    assert_eq!(samples[0].1, 100);
    assert_eq!(samples[4].1, 96);
}

#[test]
fn test_battery_history_wraparound() {
    let mut history = BatteryHistory::new();
    let base_time: u32 = 1000;

    for i in 0..80u32 {
        history.push(base_time + i * 60, 100 - i as u8);
    }

    assert_eq!(history.len(), BATTERY_HISTORY_SIZE);

    let samples = history.iter();
    assert_eq!(samples.len(), BATTERY_HISTORY_SIZE);

    // The oldest sample is the one pushed at index 48 (80 - 32)
    assert_eq!(samples[0].1, 52);
}

#[test]
fn test_battery_tracker_ttl_when_charging() {
    let mut tracker = BatteryTracker::new();

    let battery = BatteryInfo {
        left: BatteryState { level: 50, status: BatteryStatus::Charging },
        right: BatteryState { level: 60, status: BatteryStatus::Normal },
        case: BatteryState { level: 80, status: BatteryStatus::Normal },
    };

    assert!(tracker.estimate_ttl(&battery, Some(NoiseControlMode::Off), 0, None).is_none());
}

#[test]
fn test_battery_tracker_clears_on_charging() {
    let mut tracker = BatteryTracker::new();

    for i in 0..5u32 {
        let level = (100 - i * 2) as u8;
        tracker.record_battery_drop(mock_state(level, false), mock_state(level, false), i * 60);
    }

    assert!(!tracker.left_history.is_empty());
    assert!(!tracker.right_history.is_empty());

    tracker.record_battery_drop(mock_state(90, true), mock_state(90, false), 300);

    assert_eq!(tracker.left_history.len(), 0);
    assert!(!tracker.right_history.is_empty());
}

#[test]
fn test_battery_tracker_insufficient_data() {
    let mut tracker = BatteryTracker::new();

    for i in 0..3u32 {
        let level = (100 - i) as u8;
        tracker.record_battery_drop(mock_state(level, false), mock_state(level, false), i * 60);
    }

    let battery = BatteryInfo {
        left: BatteryState { level: 97, status: BatteryStatus::Normal },
        right: BatteryState { level: 97, status: BatteryStatus::Normal },
        case: BatteryState { level: 80, status: BatteryStatus::Normal },
    };

    assert!(tracker.estimate_ttl(&battery, Some(NoiseControlMode::Off), 180, None).is_none());
}

#[test]
fn test_battery_tracker_integration_with_study() {
    let mut tracker = BatteryTracker::new();

    for i in 0..10u32 {
        let level = (100 - i * 2) as u8;
        tracker.record_battery_drop(mock_state(level, false), mock_state(level, false), i * 60);
    }

    let batch = tracker.save_to_study(NoiseControlMode::NC, 600);
    assert!(batch.is_some());

    assert!(tracker.cache.is_empty());
}

#[test]
fn test_should_save() {
    let mut tracker = BatteryTracker::new();

    let battery = BatteryInfo {
        left: BatteryState { level: 80, status: BatteryStatus::Normal },
        right: BatteryState { level: 80, status: BatteryStatus::Normal },
        case: BatteryState { level: 80, status: BatteryStatus::Normal },
    };

    assert!(!tracker.should_save(30, &battery, 0));

    for i in 0..10u32 {
        let level = (100 - i) as u8;
        tracker.record_battery_drop(mock_state(level, false), mock_state(level, false), i * 60);
    }
}
