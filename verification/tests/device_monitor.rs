use meetily::audio::device_monitor::{
    follow_defaults, follows, is_bluetooth_name, start_monitoring, watch_round, DeviceEvent,
    DeviceMonitorType, MonitorState, MonitoredDevice, TrackedDefault, CHECK_INTERVAL_SECS,
    DEFAULT_SAMPLE_SECS,
};

#[test]
fn test_bluetooth_detection() {
    let airpods =
        MonitoredDevice::new("John's AirPods Pro".to_string(), DeviceMonitorType::Microphone);
    assert!(airpods.is_bluetooth);
    assert_eq!(airpods.disconnect_threshold(), 3);

    let builtin =
        MonitoredDevice::new("Built-in Microphone".to_string(), DeviceMonitorType::Microphone);
    assert!(!builtin.is_bluetooth);
    assert_eq!(builtin.disconnect_threshold(), 2);
}

#[test]
fn test_default_change_needs_debounce() {
    let mut watched =
        TrackedDefault::new(DeviceMonitorType::Microphone, "Built-in Microphone".to_string());

    // Same default: nothing to do
    assert!(watched.observe("Built-in Microphone".to_string()).is_none());

    // First sighting of the new default is not enough
    assert!(watched.observe("Headset Microphone".to_string()).is_none());

    // Second consecutive sighting triggers the migration
    let change = watched
        .observe("Headset Microphone".to_string())
        .expect("change after debounce window");
    assert_eq!(change.old_name, "Built-in Microphone");
    assert_eq!(change.new_name, "Headset Microphone");

    // The new device is now the active one, so it stops being a change
    assert!(watched.observe("Headset Microphone".to_string()).is_none());
}

#[test]
fn test_default_change_flap_is_ignored() {
    let mut watched = TrackedDefault::new(DeviceMonitorType::SystemAudio, "Speakers".to_string());

    // Bluetooth device appears for one cycle, then the default flips back
    assert!(watched.observe("Headphones".to_string()).is_none());
    assert!(watched.observe("Speakers".to_string()).is_none());

    // The earlier sighting must not count towards the next candidate
    assert!(watched.observe("Headphones".to_string()).is_none());
}

#[test]
fn test_default_change_candidate_switch_restarts_debounce() {
    let mut watched = TrackedDefault::new(DeviceMonitorType::Microphone, "Mic A".to_string());

    assert!(watched.observe("Mic B".to_string()).is_none());
    // Different candidate: counter restarts instead of carrying over
    assert!(watched.observe("Mic C".to_string()).is_none());
    let change = watched.observe("Mic C".to_string()).expect("change after debounce window");
    assert_eq!(change.new_name, "Mic C");
}

#[test]
fn bluetooth_words_count_in_lower_case_only() {
    assert!(is_bluetooth_name("my wireless headset"));
    assert!(is_bluetooth_name("bluetooth"));
    assert!(!is_bluetooth_name("My Wireless Headset"));
    assert!(!is_bluetooth_name("blue tooth"));
    let shouting = MonitoredDevice::new("WIRELESS ÉCOUTEURS".to_string(), DeviceMonitorType::SystemAudio);
    assert!(shouting.is_bluetooth);
    assert_eq!(shouting.reconnect_interval(), 5);
    let wired = MonitoredDevice::new("Jack".to_string(), DeviceMonitorType::SystemAudio);
    assert_eq!(wired.reconnect_interval(), 3);
}

fn state(mic: &str) -> MonitorState {
    start_monitoring(false, Some(mic.to_string()), None).unwrap().unwrap()
}

#[test]
fn disconnection_is_reported_once_and_reconnection_after_it() {
    let present = vec!["Jack".to_string(), "Other".to_string()];
    let absent = vec!["New".to_string(), "Other".to_string()];
    let mut s = state("Jack");
    let first = s.round(&present);
    assert_eq!(first.events.len(), 1);
    assert!(matches!(first.events[0], DeviceEvent::DeviceListChanged));
    assert_eq!((first.wait_secs, first.logged_secs), (2, 5));

    let missed = s.round(&absent);
    assert!(missed.events.is_empty());
    assert_eq!((missed.wait_secs, missed.logged_secs), (2, 2));
    let lost = s.round(&absent);
    assert_eq!(lost.events.len(), 1);
    match &lost.events[0] {
        DeviceEvent::DeviceDisconnected { device_name, device_type } => {
            assert_eq!(device_name, "Jack");
            assert_eq!(*device_type, DeviceMonitorType::Microphone);
        }
        _ => panic!("expected a disconnection"),
    }
    for _ in 0..5 {
        assert!(s.round(&absent).events.is_empty());
    }
    let back = s.round(&present);
    assert_eq!(back.events.len(), 1);
    assert!(matches!(&back.events[0], DeviceEvent::DeviceReconnected { device_name, .. } if device_name == "Jack"));
    assert!(s.round(&present).events.is_empty());
}

#[test]
fn bluetooth_gets_one_more_check() {
    let mut s = state("AirPods");
    let none: Vec<String> = vec![];
    assert!(s.round(&none).events.is_empty());
    assert!(s.round(&none).events.is_empty());
    assert_eq!(s.round(&none).events.len(), 1);
}

#[test]
fn monitoring_needs_a_device_and_starts_once() {
    assert_eq!(start_monitoring(false, None, None).unwrap_err(), "No devices to monitor");
    assert!(start_monitoring(true, Some("Jack".to_string()), None).unwrap().is_none());
    let both = start_monitoring(false, Some("Jack".to_string()), Some("Speakers".to_string()))
        .unwrap()
        .unwrap();
    assert_eq!(both.devices.len(), 2);
    assert_eq!(both.devices[0].device_type, DeviceMonitorType::Microphone);
    assert_eq!(both.devices[1].device_type, DeviceMonitorType::SystemAudio);
}

#[test]
fn unread_defaults_change_nothing() {
    let mut roles = follow_defaults(Some("Mic A".to_string()), Some("Speakers".to_string()));
    assert!(follows(&roles, DeviceMonitorType::Microphone));
    let headset = Some("Headset".to_string());
    assert!(watch_round(&mut roles, &headset, &None).is_empty());
    assert!(watch_round(&mut roles, &None, &None).is_empty());
    let changes = watch_round(&mut roles, &headset, &Some("Speakers".to_string()));
    assert_eq!(changes.len(), 1);
    assert_eq!(changes[0].old_name, "Mic A");
    assert_eq!(changes[0].new_name, "Headset");
    assert_eq!(changes[0].device_type, DeviceMonitorType::Microphone);

    let pinned = follow_defaults(None, Some("Speakers".to_string()));
    assert!(!follows(&pinned, DeviceMonitorType::Microphone));
    assert!(follows(&pinned, DeviceMonitorType::SystemAudio));
}

#[test]
fn short_absences_are_not_reported() {
    let present = vec!["Jack".to_string()];
    let absent = vec!["Other".to_string()];
    let mut s = state("Jack");
    s.round(&present);
    for _ in 0..3 {
        assert!(s.round(&absent).events.is_empty());
        let back = s.round(&present);
        assert!(back.events.is_empty());
        assert_eq!((back.wait_secs, back.logged_secs), (2, 5));
    }
    let mut wireless =
        MonitoredDevice::new("AirPods".to_string(), DeviceMonitorType::SystemAudio);
    assert!(wireless.check(false).is_none());
    assert!(wireless.check(false).is_none());
    assert!(wireless.check(true).is_none());
    assert!(wireless.check(false).is_none());
    assert!(wireless.check(false).is_none());
    assert!(matches!(wireless.check(false), Some(DeviceEvent::DeviceDisconnected { .. })));
    assert!(matches!(wireless.check(true), Some(DeviceEvent::DeviceReconnected { .. })));
    assert!(wireless.check(true).is_none());
}

#[test]
fn rounds_keep_their_pace() {
    assert_eq!(CHECK_INTERVAL_SECS, 2);
    assert_eq!(DEFAULT_SAMPLE_SECS, 2);
}
