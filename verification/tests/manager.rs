use ipsp_manager::config::{
    connect_command, BLUETOOTH_6LOWPAN_CONTROL_FILE, CONNECTION_TYPE, CONTROL_ENABLE_COMMAND,
    SCANNING_SLOT_SECS,
};
use ipsp_manager::device::{make_record, Device, DiscoveredDevice};
use ipsp_manager::filter::{contains_substring, eligible};
use ipsp_manager::IpspManager;

fn discovered(mac: &str, name: Option<&str>, connected: bool) -> DiscoveredDevice {
    DiscoveredDevice {
        mac_address: String::from(mac),
        name: name.map(String::from),
        connected,
    }
}

#[test]
fn filter_matches_substring() {
    let pattern = Some(String::from("IPSP Device"));
    assert!(eligible(&pattern, &Some(String::from("IPSP Device A"))));
    assert!(!eligible(&pattern, &Some(String::from("Other"))));
    assert!(!eligible(&pattern, &None));
}

#[test]
fn no_filter_no_exclusion() {
    assert!(eligible(&None, &None));
    assert!(eligible(&None, &Some(String::from("anything"))));
}

#[test]
fn substring_edges() {
    assert!(contains_substring("abc", ""));
    assert!(contains_substring("", ""));
    assert!(contains_substring("abc", "abc"));
    assert!(contains_substring("xxabcxx", "abc"));
    assert!(!contains_substring("ab", "abc"));
    assert!(!contains_substring("abdc", "abc"));
}

#[test]
fn connect_command_exact() {
    let cmd = connect_command("00:11:22:33:44:55", CONNECTION_TYPE);
    assert_eq!(cmd, "connect 00:11:22:33:44:55 2");
}

#[test]
fn config_values() {
    assert_eq!(
        BLUETOOTH_6LOWPAN_CONTROL_FILE,
        "/sys/kernel/debug/bluetooth/6lowpan_control"
    );
    assert_eq!(CONTROL_ENABLE_COMMAND, "1");
    assert_eq!(SCANNING_SLOT_SECS, 5);
}

#[test]
fn device_record_fields() {
    let d = Device::new(String::from("IPSP Device A"), String::from("00:11:22:33:44:55"));
    assert_eq!(d.name, "IPSP Device A");
    assert_eq!(d.mac_addr, "00:11:22:33:44:55");
}

#[test]
fn record_name_defaults_to_sentinel() {
    let rec = make_record(&discovered("00:11:22:33:44:55", None, false));
    assert_eq!(rec.name, "None");
    assert_eq!(rec.mac_addr, "00:11:22:33:44:55");
}

#[test]
fn manager_new_and_default() {
    let m = IpspManager::new(None);
    assert!(m.name_filter.is_none());
    assert!(m.devices.is_empty());
    assert!(m.is_running());

    let m = IpspManager::new(Some(String::from("IPSP Device")));
    assert_eq!(m.name_filter.as_deref(), Some("IPSP Device"));

    let m = IpspManager::default();
    assert_eq!(m.name_filter.as_deref(), Some("GTI IPSP"));
    assert!(m.devices.is_empty());
    assert!(m.is_running());
}

#[test]
fn stop_clears_and_stays_stopped() {
    let mut m = IpspManager::default();
    assert!(m.is_running());
    m.stop();
    assert!(!m.is_running());
    m.stop();
    assert!(!m.is_running());
    assert!(m.devices.is_empty());
    assert_eq!(m.name_filter.as_deref(), Some("GTI IPSP"));
}

#[test]
fn filter_devices_with_pattern() {
    let m = IpspManager::new(Some(String::from("IPSP")));
    let devices = vec![
        discovered("00:00:00:00:00:01", Some("IPSP Device A"), false),
        discovered("00:00:00:00:00:02", None, false),
        discovered("00:00:00:00:00:03", Some("Headset"), false),
        discovered("00:00:00:00:00:04", Some("GTI IPSP B"), true),
    ];
    let kept = m.filter_devices_by_name(devices);
    let macs: Vec<&str> = kept.iter().map(|d| d.mac_address.as_str()).collect();
    assert_eq!(macs, vec!["00:00:00:00:00:01", "00:00:00:00:00:04"]);
}

#[test]
fn filter_devices_without_pattern_keeps_nameless() {
    let m = IpspManager::new(None);
    let devices = vec![
        discovered("00:00:00:00:00:01", None, false),
        discovered("00:00:00:00:00:02", Some("Other"), false),
    ];
    let kept = m.filter_devices_by_name(devices);
    assert_eq!(kept.len(), 2);
    assert_eq!(kept[0].mac_address, "00:00:00:00:00:01");
}

#[test]
fn candidates_suppress_connected_duplicates() {
    let m = IpspManager::new(Some(String::from("IPSP")));
    let devices = vec![
        discovered("00:00:00:00:00:01", Some("IPSP Device A"), true),
        discovered("00:00:00:00:00:02", Some("IPSP Device B"), false),
        discovered("00:00:00:00:00:03", None, false),
    ];
    let cands = m.connection_candidates(&devices);
    assert_eq!(cands.len(), 1);
    assert_eq!(cands[0].mac_address, "00:00:00:00:00:02");
    assert!(!cands[0].connected);
}

#[test]
fn candidates_keep_enumeration_order() {
    let m = IpspManager::new(None);
    let devices = vec![
        discovered("00:00:00:00:00:01", Some("A"), false),
        discovered("00:00:00:00:00:02", Some("B"), true),
        discovered("00:00:00:00:00:03", Some("C"), false),
    ];
    let cands = m.connection_candidates(&devices);
    let macs: Vec<&str> = cands.iter().map(|d| d.mac_address.as_str()).collect();
    assert_eq!(macs, vec!["00:00:00:00:00:01", "00:00:00:00:00:03"]);
}

#[test]
fn round_failure_does_not_lose_success() {
    let mut m = IpspManager::new(None);
    let attempted = vec![
        discovered("00:00:00:00:00:0A", Some("A"), false),
        discovered("00:00:00:00:00:0B", Some("B"), false),
    ];
    let outcomes = vec![false, true];
    m.apply_round(&attempted, &outcomes);
    assert_eq!(m.devices.len(), 1);
    assert_eq!(m.devices[0].mac_addr, "00:00:00:00:00:0B");
    assert_eq!(m.devices[0].name, "B");
}

#[test]
fn records_append_and_never_change() {
    let mut m = IpspManager::new(None);
    m.record_connection(&discovered("00:00:00:00:00:01", Some("First"), false));
    let name0 = m.devices[0].name.clone();
    let mac0 = m.devices[0].mac_addr.clone();

    m.record_connection(&discovered("00:00:00:00:00:02", None, false));
    m.apply_round(
        &vec![discovered("00:00:00:00:00:03", Some("Third"), false)],
        &vec![true],
    );
    m.stop();

    assert_eq!(m.devices.len(), 3);
    assert_eq!(m.devices[0].name, name0);
    assert_eq!(m.devices[0].mac_addr, mac0);
    assert_eq!(m.devices[1].name, "None");
    assert_eq!(m.devices[1].mac_addr, "00:00:00:00:00:02");
    assert_eq!(m.devices[2].name, "Third");
}

#[test]
fn eligible_method_uses_configured_pattern() {
    let m = IpspManager::new(Some(String::from("GTI IPSP")));
    assert!(m.eligible(&Some(String::from("GTI IPSP node 7"))));
    assert!(!m.eligible(&Some(String::from("GTI"))));
    assert!(!m.eligible(&None));
}
