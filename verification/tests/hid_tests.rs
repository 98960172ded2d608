use cec2uinput::config::{default_cec_version, default_log_level, default_physical_address};
use cec2uinput::hid::{hid_report, map_action_to_hid_key, map_hid_to_action};

#[test]
fn hid_reports_decode_to_names() {
    assert_eq!(map_hid_to_action(&[0x41]), Some("Up".to_string()));
    assert_eq!(map_hid_to_action(&[0x42, 0, 0]), Some("Down".to_string()));
    assert_eq!(map_hid_to_action(&[0x43]), Some("Left".to_string()));
    assert_eq!(map_hid_to_action(&[0x44]), Some("Right".to_string()));
    assert_eq!(map_hid_to_action(&[0x45]), Some("Select".to_string()));
    assert_eq!(map_hid_to_action(&[0x46]), None);
    assert_eq!(map_hid_to_action(&[]), None);
}

#[test]
fn names_encode_to_hid_keys() {
    assert_eq!(map_action_to_hid_key("Up"), Some(0x52));
    assert_eq!(map_action_to_hid_key("Down"), Some(0x51));
    assert_eq!(map_action_to_hid_key("Left"), Some(0x50));
    assert_eq!(map_action_to_hid_key("Right"), Some(0x4F));
    assert_eq!(map_action_to_hid_key("Select"), Some(0x2C));
    assert_eq!(map_action_to_hid_key("up"), None);
    assert_eq!(map_action_to_hid_key(""), None);
}

#[test]
fn keyboard_report_shape() {
    let report = hid_report(0x52);
    assert_eq!(report, vec![0, 0, 0x52, 0, 0, 0, 0, 0]);
    let release = hid_report(0);
    assert_eq!(release, vec![0u8; 8]);
}

#[test]
fn configuration_defaults() {
    assert_eq!(default_physical_address(), 0x1000);
    assert_eq!(default_cec_version(), "1.4");
    assert_eq!(default_log_level(), "info");
}
