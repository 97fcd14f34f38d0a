use netsim_pcap::controller::{get_pcaps_from_devices, handle_pcap_list};
use netsim_pcap::handlers::{handle_pcap, handle_pcap_cxx, Response};
use netsim_pcap::json::{pcap_to_string, records_to_json, write_to_json_str};
use netsim_pcap::model::{
    chip_kind_to_string, new_with_entry, state_to_string, Chip, ChipKind, Device, Pcap, State,
};
use netsim_pcap::registry::{Pcaps, RemovalIndicator};
use netsim_pcap::text::{parse_i32, push_int, str_eq};

fn device(name: &str, chips: &[(i32, ChipKind)]) -> Device {
    Device {
        name: name.to_string(),
        chips: chips.iter().map(|&(id, kind)| Chip { id, kind }).collect(),
    }
}

fn pixel() -> Vec<Device> {
    vec![device("Pixel", &[(10, ChipKind::Bluetooth)])]
}

fn list(pcaps: &mut Pcaps, devices: &Vec<Device>) -> String {
    handle_pcap_list(pcaps, Some(devices))
}

fn patch(pcaps: &mut Pcaps, id: &str, body: &str) -> Response {
    handle_pcap_cxx(pcaps, "PATCH".to_string(), id.to_string(), body.to_string(), None)
}

fn assert_error(r: &Response, code: u16, msg: &str) {
    match r {
        Response::Error { code: c, message } => {
            assert_eq!(*c, code);
            assert_eq!(message, msg);
        }
        other => panic!("expected an error, got {:?}", other),
    }
}

#[test]
fn test_empty_pcap_to_string() {
    let pcap = Pcap::new();
    let mut out = String::new();
    pcap_to_string(&pcap, &mut out);
    let expected = r#"{"id": 0,"chip_kind": "UNSPECIFIED","chip_id": 0,"device_name": "","state": "UNKNOWN","size": 0,"records": 0,"timestamp": 0,"valid": false},"#;
    assert_eq!(out, expected);
}

#[test]
fn test_modified_pcap_to_string() {
    let mut pcap = Pcap::new();
    let mut out = String::new();
    pcap.id = 1;
    pcap.chip_kind = ChipKind::Wifi;
    pcap.device_name = "sample".to_string();
    pcap_to_string(&pcap, &mut out);
    let expected = r#"{"id": 1,"chip_kind": "WIFI","chip_id": 0,"device_name": "sample","state": "UNKNOWN","size": 0,"records": 0,"timestamp": 0,"valid": false},"#;
    assert_eq!(out, expected);
}

#[test]
fn first_listing_adds_a_record_for_a_new_chip() {
    let mut pcaps = Pcaps::new();
    let out = list(&mut pcaps, &pixel());
    let p = pcaps.get_by_chip_id(10).expect("record");
    assert_eq!(p.id, 4000);
    assert_eq!(p.chip_id, 10);
    assert_eq!(p.chip_kind, ChipKind::Bluetooth);
    assert_eq!(p.device_name, "Pixel");
    assert_eq!(p.state, State::Off);
    assert_eq!(p.size, 0);
    assert!(p.valid);
    assert_eq!(
        out,
        r#"{"pcaps": [{"id": 4000,"chip_kind": "BLUETOOTH","chip_id": 10,"device_name": "Pixel","state": "OFF","size": 0,"records": 0,"timestamp": 0,"valid": true}]}"#
    );
}

#[test]
fn unused_record_of_vanished_chip_is_deleted() {
    let mut pcaps = Pcaps::new();
    list(&mut pcaps, &pixel());
    let out = list(&mut pcaps, &Vec::new());
    assert!(pcaps.get_by_chip_id(10).is_none());
    assert!(pcaps.is_empty());
    assert_eq!(out, "{}");
}

#[test]
fn record_with_data_of_vanished_chip_is_kept_invalid() {
    let mut pcaps = Pcaps::new();
    list(&mut pcaps, &pixel());
    assert!(pcaps.update_counters(10, 512, 3, 77));
    let out = list(&mut pcaps, &Vec::new());
    let p = pcaps.get_by_chip_id(10).expect("kept");
    assert!(!p.valid);
    assert_eq!(p.size, 512);
    assert_eq!(pcaps.get_by_pcap_id(4000).expect("by id").chip_id, 10);
    assert_eq!(
        out,
        r#"{"pcaps": [{"id": 4000,"chip_kind": "BLUETOOTH","chip_id": 10,"device_name": "Pixel","state": "OFF","size": 512,"records": 3,"timestamp": 77,"valid": false}]}"#
    );
    // Still kept on later passes.
    list(&mut pcaps, &Vec::new());
    assert!(pcaps.get_by_chip_id(10).is_some());
}

#[test]
fn patch_turns_capture_on_and_off() {
    let mut pcaps = Pcaps::new();
    list(&mut pcaps, &pixel());
    let r = patch(&mut pcaps, "4000", "1");
    assert!(matches!(r, Response::Success { .. }));
    let out = list(&mut pcaps, &pixel());
    assert!(out.contains(r#""state": "ON""#));
    assert_eq!(pcaps.get_by_pcap_id(4000).unwrap().state, State::On);
    patch(&mut pcaps, "4000", "2");
    assert_eq!(pcaps.get_by_pcap_id(4000).unwrap().state, State::Off);
}

#[test]
fn patch_of_unknown_id_is_not_found() {
    let mut pcaps = Pcaps::new();
    list(&mut pcaps, &pixel());
    let before = list(&mut pcaps, &pixel());
    let r = patch(&mut pcaps, "9999", "1");
    assert_error(&r, 404, "Pcap ID not found.");
    assert_eq!(list(&mut pcaps, &pixel()), before);
}

#[test]
fn patch_with_bad_id_or_body_is_rejected() {
    let mut pcaps = Pcaps::new();
    list(&mut pcaps, &pixel());
    let r = patch(&mut pcaps, "abc", "1");
    assert_error(&r, 404, "Incorrect ID type for pcap, ID should be i32.");
    let r = patch(&mut pcaps, "4000", "9");
    assert_error(&r, 404, "Incorrect state for PatchPcap");
    assert_eq!(pcaps.get_by_pcap_id(4000).unwrap().state, State::Off);
}

#[test]
fn other_methods_are_not_found() {
    let mut pcaps = Pcaps::new();
    let r = handle_pcap_cxx(&mut pcaps, "POST".to_string(), String::new(), String::new(), None);
    assert_error(&r, 404, "Not found.");
    let r = handle_pcap_cxx(&mut pcaps, "DELETE".to_string(), "4000".to_string(), String::new(), None);
    assert_error(&r, 404, "Not found.");
}

#[test]
fn get_of_one_capture_is_empty() {
    let mut pcaps = Pcaps::new();
    let r = handle_pcap(&mut pcaps, "GET", "/v1/pcaps/4000", "4000", "", None);
    match r {
        Response::OkWithLength { mime_type, length } => {
            assert_eq!(mime_type, "text/plain");
            assert_eq!(length, 0);
        }
        other => panic!("unexpected {:?}", other),
    }
}

#[test]
fn get_of_collection_lists_as_json() {
    let mut pcaps = Pcaps::new();
    let ds = pixel();
    let r = handle_pcap_cxx(&mut pcaps, "GET".to_string(), String::new(), String::new(), Some(&ds));
    match r {
        Response::Success { mime_type, body } => {
            assert_eq!(mime_type, "text/json");
            assert!(body.starts_with(r#"{"pcaps": [{"id": 4000,"#));
        }
        other => panic!("unexpected {:?}", other),
    }
}

#[test]
fn failed_topology_read_changes_nothing() {
    let mut pcaps = Pcaps::new();
    list(&mut pcaps, &pixel());
    let out = handle_pcap_list(&mut pcaps, None);
    assert!(pcaps.get_by_chip_id(10).is_some());
    assert!(out.contains(r#""chip_id": 10"#));
}

#[test]
fn ids_are_unique_and_never_reused() {
    let mut pcaps = Pcaps::new();
    let ds = vec![
        device("Pixel", &[(10, ChipKind::Bluetooth), (11, ChipKind::Wifi)]),
        device("Watch", &[(12, ChipKind::Uwb), (10, ChipKind::Bluetooth)]),
    ];
    list(&mut pcaps, &ds);
    let ids: Vec<i32> = pcaps.values().iter().map(|p| p.id).collect();
    assert_eq!(ids, vec![4000, 4001, 4002]);
    let chips: Vec<i32> = pcaps.values().iter().map(|p| p.chip_id).collect();
    assert_eq!(chips, vec![10, 11, 12]);
    // Chip 11 goes away and comes back: it gets a new id.
    list(&mut pcaps, &vec![device("Pixel", &[(10, ChipKind::Bluetooth)]), device("Watch", &[(12, ChipKind::Uwb)])]);
    list(&mut pcaps, &ds);
    assert_eq!(pcaps.get_by_chip_id(11).unwrap().id, 4003);
}

#[test]
fn listing_twice_gives_the_same_text() {
    let mut pcaps = Pcaps::new();
    let ds = vec![device("Pixel", &[(10, ChipKind::Bluetooth), (11, ChipKind::Wifi)])];
    list(&mut pcaps, &ds);
    pcaps.update_counters(11, 5, 1, 9);
    let gone = vec![device("Pixel", &[(10, ChipKind::Bluetooth)])];
    let first = list(&mut pcaps, &gone);
    let second = list(&mut pcaps, &gone);
    assert_eq!(first, second);
}

#[test]
fn empty_and_single_registry_json() {
    assert_eq!(records_to_json(&Vec::new()), "{}");
    let one = vec![new_with_entry(ChipKind::Uwb, 7, "Dev".to_string())];
    assert_eq!(
        records_to_json(&one),
        r#"{"pcaps": [{"id": 0,"chip_kind": "UWB","chip_id": 7,"device_name": "Dev","state": "OFF","size": 0,"records": 0,"timestamp": 0,"valid": true}]}"#
    );
}

#[test]
fn two_records_are_separated_by_one_comma() {
    let mut a = Pcap::new();
    a.id = 1;
    let mut b = Pcap::new();
    b.id = 2;
    let out = records_to_json(&vec![a, b]);
    assert!(out.contains(r#""valid": false},{"id": 2,"#));
    assert!(out.ends_with(r#""valid": false}]}"#));
}

#[test]
fn json_members_quote_only_text_values() {
    let mut out = String::new();
    write_to_json_str("state", "ON".to_string(), &mut out);
    write_to_json_str("size", "12".to_string(), &mut out);
    assert_eq!(out, r#""state": "ON","size": 12,"#);
}

#[test]
fn enum_names() {
    assert_eq!(state_to_string(State::Unknown), "UNKNOWN");
    assert_eq!(state_to_string(State::On), "ON");
    assert_eq!(state_to_string(State::Off), "OFF");
    assert_eq!(chip_kind_to_string(ChipKind::Unspecified), "UNSPECIFIED");
    assert_eq!(chip_kind_to_string(ChipKind::Bluetooth), "BLUETOOTH");
    assert_eq!(chip_kind_to_string(ChipKind::Uwb), "UWB");
    assert_eq!(chip_kind_to_string(ChipKind::Wifi), "WIFI");
}

#[test]
fn negative_and_extreme_numbers() {
    let mut p = Pcap::new();
    p.id = -5;
    p.timestamp = i64::MIN;
    p.size = i32::MAX;
    let mut out = String::new();
    pcap_to_string(&p, &mut out);
    assert!(out.starts_with(r#"{"id": -5,"#));
    assert!(out.contains(r#""size": 2147483647,"#));
    assert!(out.contains(r#""timestamp": -9223372036854775808,"#));
    let mut s = String::new();
    push_int(0, &mut s);
    push_int(1234567890, &mut s);
    assert_eq!(s, "01234567890");
}

#[test]
fn parsing_ids() {
    assert_eq!(parse_i32("4000"), Some(4000));
    assert_eq!(parse_i32("+7"), Some(7));
    assert_eq!(parse_i32("-0"), Some(0));
    assert_eq!(parse_i32("-2147483648"), Some(i32::MIN));
    assert_eq!(parse_i32("2147483647"), Some(i32::MAX));
    assert_eq!(parse_i32("2147483648"), None);
    assert_eq!(parse_i32("-2147483649"), None);
    assert_eq!(parse_i32("99999999999999999999"), None);
    assert_eq!(parse_i32(""), None);
    assert_eq!(parse_i32("-"), None);
    assert_eq!(parse_i32("12a"), None);
    assert_eq!(parse_i32(" 1"), None);
}

#[test]
fn string_comparison() {
    assert!(str_eq("GET", "GET"));
    assert!(!str_eq("GET", "GE"));
    assert!(!str_eq("GET", "PUT"));
    assert!(str_eq("", ""));
}

#[test]
fn snapshot_follows_devices_and_chips_in_order() {
    let ds = vec![
        device("A", &[(1, ChipKind::Wifi)]),
        device("B", &[]),
        device("C", &[(2, ChipKind::Bluetooth), (3, ChipKind::Uwb)]),
    ];
    let s = get_pcaps_from_devices(&ds);
    let got: Vec<(i32, String)> = s.iter().map(|p| (p.chip_id, p.device_name.clone())).collect();
    assert_eq!(got, vec![(1, "A".to_string()), (2, "C".to_string()), (3, "C".to_string())]);
    assert!(s.iter().all(|p| p.valid && p.state == State::Off && p.size == 0));
}

#[test]
fn registry_operations() {
    let mut pcaps = Pcaps::new();
    assert!(pcaps.is_empty());
    let p = new_with_entry(ChipKind::Wifi, 20, "Tab".to_string());
    assert!(!pcaps.contains_pcap(&p));
    pcaps.insert(p);
    assert!(pcaps.contains_pcap(&new_with_entry(ChipKind::Wifi, 20, String::new())));
    assert_eq!(pcaps.get_by_chip_id(20).unwrap().id, 4000);
    assert!(pcaps.get_by_facade_id(3).is_none());
    assert!(pcaps.set_facade_id(3, 20));
    assert!(!pcaps.set_facade_id(4, 99));
    assert_eq!(pcaps.get_by_facade_id(3).unwrap().chip_id, 20);
    assert!(pcaps.set_state(4000, true));
    assert!(!pcaps.set_state(4001, true));
    pcaps.remove(&20);
    assert!(pcaps.is_empty());
    assert!(pcaps.get_by_facade_id(3).is_none());
    pcaps.remove(&20);
    assert!(pcaps.is_empty());
}

#[test]
fn applying_removal_decisions() {
    let mut pcaps = Pcaps::new();
    pcaps.insert(new_with_entry(ChipKind::Wifi, 1, "A".to_string()));
    pcaps.insert(new_with_entry(ChipKind::Wifi, 2, "B".to_string()));
    pcaps.insert(new_with_entry(ChipKind::Wifi, 3, "C".to_string()));
    pcaps.apply_removals(&vec![RemovalIndicator::Gone, RemovalIndicator::Unused, RemovalIndicator::Keep]);
    let left: Vec<(i32, bool)> = pcaps.values().iter().map(|p| (p.chip_id, p.valid)).collect();
    assert_eq!(left, vec![(1, false), (3, true)]);
}
