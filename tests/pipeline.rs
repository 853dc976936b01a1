use ips_logger::ingest::{bytes_are_ascii, calibration_from_fields, decode_calibration, DecodeError};
use ips_logger::model::{Beacon, BeaconCalibrationData};
use ips_logger::scan::{collect_batch, scan_cycle, AdapterError, DeviceReading};
use ips_logger::store::CalibrationStore;

fn record(device: &str, mac: &str, rssi: i16, diff: i16) -> BeaconCalibrationData {
    BeaconCalibrationData {
        device_identifier: device.to_string(),
        mac_address: mac.to_string(),
        rssi,
        diff,
    }
}

fn beacon(mac: &str, rssi: i16) -> Beacon {
    Beacon { mac_address: mac.to_string(), rssi }
}

fn reading(address: &str, rssi: Option<i16>) -> DeviceReading {
    DeviceReading { address: address.to_string(), rssi }
}

fn message(device: &str, mac: &str, rssi: i64, diff: i64) -> Vec<u8> {
    format!(
        "{{\"device_identifier\":\"{}\",\"mac_address\":\"{}\",\"rssi\":{},\"diff\":{}}}",
        device, mac, rssi, diff
    )
    .into_bytes()
}

fn key_of(r: &BeaconCalibrationData) -> (String, String, i16, i16) {
    (r.device_identifier.clone(), r.mac_address.clone(), r.rssi, r.diff)
}

#[test]
fn scenario_single_observation_with_calibration() {
    let mut store = CalibrationStore::new();
    store.insert(record("dev1", "AA:AA", -58, 5));
    let rows = store.correlate(&beacon("AA:AA", -60));
    assert_eq!(rows.raw.mac_address, "AA:AA");
    assert_eq!(rows.raw.rssi, -60);
    assert_eq!(rows.calibrations.len(), 1);
    assert_eq!(
        key_of(&rows.calibrations[0]),
        ("dev1".to_string(), "AA:AA".to_string(), -58, 5)
    );
}

#[test]
fn scenario_second_calibration_message_replaces_first() {
    let mut store = CalibrationStore::new();
    assert_eq!(store.ingest(&message("dev1", "AA:AA", -58, 3)), Ok(()));
    assert_eq!(store.ingest(&message("dev1", "AA:AA", -58, 7)), Ok(()));
    let found = store.lookup(&"AA:AA".to_string(), &"dev1".to_string()).unwrap();
    assert_eq!(found.diff, 7);
    let all = store.records_for(&"AA:AA".to_string());
    assert_eq!(all.len(), 1);
    assert_eq!(all[0].diff, 7);
}

#[test]
fn scenario_failed_adapter_query_then_success() {
    let first = scan_cycle(Err(AdapterError));
    assert!(first.is_none());
    let second = scan_cycle(Ok(vec![reading("AA:AA", Some(-60))]));
    let batch = second.unwrap();
    assert_eq!(batch.len(), 1);
    assert_eq!(batch[0].mac_address, "AA:AA");
    assert_eq!(batch[0].rssi, -60);
}

#[test]
fn one_secondary_row_per_record_under_identity() {
    let mut store = CalibrationStore::new();
    store.insert(record("dev1", "AA:AA", -58, 5));
    store.insert(record("dev2", "AA:AA", -70, -2));
    store.insert(record("dev1", "BB:BB", -40, 1));
    let rows = store.correlate(&beacon("AA:AA", -61));
    assert_eq!(rows.raw.rssi, -61);
    let mut got: Vec<(String, String, i16, i16)> = rows.calibrations.iter().map(key_of).collect();
    got.sort();
    assert_eq!(
        got,
        vec![
            ("dev1".to_string(), "AA:AA".to_string(), -58, 5),
            ("dev2".to_string(), "AA:AA".to_string(), -70, -2),
        ]
    );
}

#[test]
fn absent_identity_gives_only_the_raw_row() {
    let mut store = CalibrationStore::new();
    store.insert(record("dev1", "BB:BB", -40, 1));
    let rows = store.correlate(&beacon("AA:AA", -50));
    assert!(rows.calibrations.is_empty());
    assert_eq!(rows.raw.mac_address, "AA:AA");
    assert_eq!(rows.raw.rssi, -50);
    let empty = CalibrationStore::new();
    assert!(empty.correlate(&beacon("AA:AA", -50)).calibrations.is_empty());
}

#[test]
fn last_write_wins_per_key() {
    let mut store = CalibrationStore::new();
    store.insert(record("dev1", "AA:AA", -58, 3));
    store.insert(record("dev2", "AA:AA", -60, 4));
    store.insert(record("dev1", "aa:aa", -57, 9));
    let found = store.lookup(&"AA:AA".to_string(), &"dev1".to_string()).unwrap();
    assert_eq!(key_of(&found), ("dev1".to_string(), "AA:AA".to_string(), -57, 9));
    assert_eq!(store.records_for(&"AA:AA".to_string()).len(), 2);
}

#[test]
fn identity_matching_ignores_case() {
    let mut store = CalibrationStore::new();
    store.insert(record("dev1", "AA:BB:CC", -58, 5));
    let rows = store.correlate(&beacon("aa:bb:cc", -60));
    assert_eq!(rows.calibrations.len(), 1);
    assert_eq!(rows.raw.mac_address, "aa:bb:cc");
    store.insert(record("dev2", "dd:ee:ff", -50, 2));
    let found = store.lookup(&"DD:EE:FF".to_string(), &"dev2".to_string()).unwrap();
    assert_eq!(found.mac_address, "DD:EE:FF");
    assert_eq!(store.records_for(&"Dd:eE:fF".to_string()).len(), 1);
}

#[test]
fn lookup_is_exact_on_the_device() {
    let mut store = CalibrationStore::new();
    store.insert(record("dev1", "AA:AA", -58, 5));
    assert!(store.lookup(&"AA:AA".to_string(), &"DEV1".to_string()).is_none());
    assert!(store.lookup(&"AA:AB".to_string(), &"dev1".to_string()).is_none());
}

#[test]
fn malformed_messages_leave_the_store_alone() {
    let mut store = CalibrationStore::new();
    store.insert(record("dev1", "AA:AA", -58, 5));
    let mut bad = message("dev1", "AA:AA", -58, 9);
    bad.push(0xC3);
    assert_eq!(store.ingest(&bad), Err(DecodeError::NotText));
    assert_eq!(store.ingest(b"not json"), Err(DecodeError::NotJson));
    assert_eq!(
        store.ingest(b"{\"device_identifier\":\"dev1\",\"mac_address\":\"AA:AA\",\"rssi\":-58}"),
        Err(DecodeError::MissingField)
    );
    assert_eq!(
        store.ingest(b"{\"device_identifier\":\"dev1\",\"mac_address\":\"AA:AA\",\"rssi\":\"-58\",\"diff\":9}"),
        Err(DecodeError::MissingField)
    );
    assert_eq!(store.ingest(&message("dev1", "AA:AA", -58, 40000)), Err(DecodeError::OutOfRange));
    let all = store.records_for(&"AA:AA".to_string());
    assert_eq!(all.len(), 1);
    assert_eq!(key_of(&all[0]), ("dev1".to_string(), "AA:AA".to_string(), -58, 5));
    assert_eq!(store.ingest(&message("dev1", "AA:AA", -58, 9)), Ok(()));
    assert_eq!(store.records_for(&"AA:AA".to_string())[0].diff, 9);
}

#[test]
fn ingest_upper_cases_the_identity() {
    let mut store = CalibrationStore::new();
    assert_eq!(store.ingest(&message("dev1", "ab:cd", -58, 5)), Ok(()));
    let all = store.records_for(&"AB:CD".to_string());
    assert_eq!(all.len(), 1);
    assert_eq!(all[0].mac_address, "AB:CD");
}

#[test]
fn decode_reads_all_fields() {
    let r = decode_calibration(
        b"{\"rssi\":-71,\"mac_address\":\"11:22\",\"extra\":true,\"diff\":-4,\"device_identifier\":\"node\"}",
    )
    .unwrap();
    assert_eq!(key_of(&r), ("node".to_string(), "11:22".to_string(), -71, -4));
    assert_eq!(decode_calibration(b"[1,2]").err(), Some(DecodeError::MissingField));
    assert_eq!(decode_calibration(b"").err(), Some(DecodeError::NotJson));
}

#[test]
fn fields_must_be_present_and_fit() {
    let ok = calibration_from_fields(
        Some("d".to_string()),
        Some("m".to_string()),
        Some(-32768),
        Some(32767),
    )
    .unwrap();
    assert_eq!(key_of(&ok), ("d".to_string(), "m".to_string(), -32768, 32767));
    assert_eq!(
        calibration_from_fields(None, Some("m".to_string()), Some(1), Some(1)).err(),
        Some(DecodeError::MissingField)
    );
    assert_eq!(
        calibration_from_fields(Some("d".to_string()), Some("m".to_string()), Some(-32769), Some(1))
            .err(),
        Some(DecodeError::OutOfRange)
    );
}

#[test]
fn ascii_check_on_bytes() {
    assert!(bytes_are_ascii(b""));
    assert!(bytes_are_ascii(b"{\"a\":1}"));
    assert!(!bytes_are_ascii(&[0x41, 0x80]));
}

#[test]
fn unreadable_devices_are_left_out() {
    let readings = vec![
        reading("AA:AA", Some(-60)),
        reading("BB:BB", None),
        reading("CC:CC", Some(-75)),
    ];
    let batch = collect_batch(&readings);
    let got: Vec<(String, i16)> = batch.iter().map(|b| (b.mac_address.clone(), b.rssi)).collect();
    assert_eq!(got, vec![("AA:AA".to_string(), -60), ("CC:CC".to_string(), -75)]);
}

#[test]
fn all_devices_unreadable_gives_an_empty_batch() {
    let readings = vec![reading("AA:AA", None), reading("BB:BB", None)];
    let batch = scan_cycle(Ok(readings)).unwrap();
    assert!(batch.is_empty());
    assert!(scan_cycle(Ok(Vec::new())).unwrap().is_empty());
}

#[test]
fn non_integer_strengths_are_rejected() {
    let mut store = CalibrationStore::new();
    assert_eq!(
        store.ingest(b"{\"device_identifier\":\"dev1\",\"mac_address\":\"AA:AA\",\"rssi\":-58.5,\"diff\":3}"),
        Err(DecodeError::MissingField)
    );
    assert_eq!(
        store.ingest(b"{\"device_identifier\":7,\"mac_address\":\"AA:AA\",\"rssi\":-58,\"diff\":3}"),
        Err(DecodeError::MissingField)
    );
    assert!(store.records_for(&"AA:AA".to_string()).is_empty());
}
