use aura::bluetooth::{
    bluetooth_status, parse_device_line, parse_device_list, parse_scan_output, ProximityMonitor, ProximitySettings,
};
use aura::types::PhoneConfig;

#[test]
fn parses_bluetoothctl_device_lines() {
    let out = "Device 00:11:22:33:44:55 Pixel 7 Pro\nDevice AA:BB:CC:DD:EE:FF Headphones\r\nController 11:22:33:44:55:66 host\nDevice 12:34:56:78:9A:BC\n\n";
    let devs = parse_device_list(out);
    assert_eq!(devs.len(), 2);
    assert_eq!(devs[0].mac, "00:11:22:33:44:55");
    assert_eq!(devs[0].name, "Pixel 7 Pro");
    assert_eq!(devs[1].mac, "AA:BB:CC:DD:EE:FF");
    assert_eq!(devs[1].name, "Headphones");
}

#[test]
fn device_names_collapse_whitespace() {
    let d = parse_device_line("  Device  01:02:03:04:05:06   My\tPhone  ").unwrap();
    assert_eq!(d.mac, "01:02:03:04:05:06");
    assert_eq!(d.name, "My Phone");
    assert!(parse_device_line("device 01:02 name").is_none());
    assert!(parse_device_line("").is_none());
}

#[test]
fn scan_output_bytes_are_decoded_lossily() {
    let devs = parse_scan_output(b"Device 01:02:03:04:05:06 Caf\xe9\n");
    assert_eq!(devs.len(), 1);
    assert_eq!(devs[0].name, "Caf\u{FFFD}");
}

#[test]
fn proximity_lock_fires_once_per_departure() {
    let mut m = ProximityMonitor::new();
    let phone = Some("00:11:22:33:44:55".to_string());
    assert_eq!(m.plan(true, &phone), phone);
    assert!(!m.observe(true));
    assert!(m.observe(false));
    assert!(!m.observe(false));
    assert!(!m.observe(true));
    assert!(m.observe(false));
}

#[test]
fn proximity_lock_disabled_or_unconfigured() {
    let mut m = ProximityMonitor::new();
    assert!(m.observe(true) == false);
    m.observe(false);
    assert!(!m.was_connected);
    assert_eq!(m.plan(false, &Some("x".to_string())), None);
    assert!(m.was_connected);
    assert_eq!(m.plan(true, &None), None);
    assert!(m.was_connected);
}

#[test]
fn first_check_assumes_phone_was_present() {
    let mut m = ProximityMonitor::new();
    assert!(m.was_connected);
    assert!(m.observe(false));
    let mut m2 = ProximityMonitor::new();
    assert!(!m2.observe(true));
}

#[test]
fn status_reports_connection_only_with_a_phone() {
    let s = bluetooth_status(Some("00:11".to_string()), true, true);
    assert!(s.is_connected && s.enabled);
    assert_eq!(s.mac_address.as_deref(), Some("00:11"));
    let n = bluetooth_status(None, true, true);
    assert!(!n.is_connected);
}

#[test]
fn device_name_splits_back_into_its_words() {
    let line = "Device 01:02:03:04:05:06 \t Living \u{A0} Room   Speaker ";
    let d = parse_device_line(line).unwrap();
    let words: Vec<&str> = line.split_whitespace().skip(2).collect();
    assert_eq!(d.name.split_whitespace().collect::<Vec<_>>(), words);
    assert_eq!(d.name, "Living Room Speaker");
}

#[test]
fn settings_read_back_what_was_written() {
    let mut s = ProximitySettings::from_stored(None);
    assert_eq!(s.phone_mac(), None);
    assert!(!s.enabled());
    let stored = s.configure(Some("00:11:22:33:44:55".to_string()), true);
    assert_eq!(stored.mac_address.as_deref(), Some("00:11:22:33:44:55"));
    assert!(stored.enabled);
    assert_eq!(s.phone_mac().as_deref(), Some("00:11:22:33:44:55"));
    assert!(s.enabled());
    s.configure(None, false);
    assert_eq!(s.phone_mac(), None);
    assert!(!s.enabled());
    let loaded = ProximitySettings::from_stored(Some(PhoneConfig { mac_address: Some("aa".into()), enabled: true }));
    assert_eq!(loaded.phone_mac().as_deref(), Some("aa"));
    assert!(loaded.enabled());
}
