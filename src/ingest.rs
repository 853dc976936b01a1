//! Decoding calibration messages and applying them to the store.
use crate::model::{BeaconCalibrationData, CalibrationView};
use crate::store::{upserted, CalibrationStore};
use vstd::prelude::*;

verus! {

/// Why a calibration message was discarded.
#[derive(PartialEq, Eq, Structural, Debug, Clone, Copy)]
pub enum DecodeError {
    /// The payload holds a byte outside ASCII.
    NotText,
    /// The payload is not one JSON document.
    NotJson,
    /// A field is absent or of the wrong JSON type.
    MissingField,
    /// A signal strength or offset does not fit in 16 bits.
    OutOfRange,
}

pub open spec fn ascii_bytes(b: Seq<u8>) -> bool {
    forall|i: int| 0 <= i < b.len() ==> #[trigger] b[i] < 128
}

pub open spec fn fits_i16(x: i64) -> bool {
    i16::MIN <= x <= i16::MAX
}

/// Whether serde_json reads `payload` as one JSON document.
pub uninterp spec fn json_document(payload: Seq<u8>) -> bool;

/// The text of the member `key` of the JSON object in `payload`, where that
/// member exists and is a JSON string.
pub uninterp spec fn json_text_member(payload: Seq<u8>, key: Seq<char>) -> Option<Seq<char>>;

/// The value of the member `key` of the JSON object in `payload`, where that
/// member exists and is a JSON integer that fits in 64 bits.
pub uninterp spec fn json_int_member(payload: Seq<u8>, key: Seq<char>) -> Option<i64>;

pub open spec fn text_view(o: Option<String>) -> Option<Seq<char>> {
    match o {
        Some(s) => Some(s@),
        None => None,
    }
}

/// Relies on `serde_json::from_slice` (into a `serde_json::Value`), then on
/// `Value::get` with `Value::as_str` for the two text members and with
/// `Value::as_i64` for the two integer members: `None` where the payload is
/// no JSON document, else each member as serde_json reads it.
#[verifier::external_body]
fn json_members(payload: &[u8], text_a: &str, text_b: &str, int_a: &str, int_b: &str) -> (r:
    Option<(Option<String>, Option<String>, Option<i64>, Option<i64>)>)
    ensures
        r is Some <==> json_document(payload@),
        r matches Some(m) ==> text_view(m.0) == json_text_member(payload@, text_a@) && text_view(
            m.1,
        ) == json_text_member(payload@, text_b@) && m.2 == json_int_member(payload@, int_a@)
            && m.3 == json_int_member(payload@, int_b@),
{
    let doc: serde_json::Value = serde_json::from_slice(payload).ok()?;
    Some(
        (
            doc.get(text_a).and_then(serde_json::Value::as_str).map(String::from),
            doc.get(text_b).and_then(serde_json::Value::as_str).map(String::from),
            doc.get(int_a).and_then(serde_json::Value::as_i64),
            doc.get(int_b).and_then(serde_json::Value::as_i64),
        ),
    )
}

pub open spec fn device_member(p: Seq<u8>) -> Option<Seq<char>> {
    json_text_member(p, "device_identifier"@)
}

pub open spec fn mac_member(p: Seq<u8>) -> Option<Seq<char>> {
    json_text_member(p, "mac_address"@)
}

pub open spec fn rssi_member(p: Seq<u8>) -> Option<i64> {
    json_int_member(p, "rssi"@)
}

pub open spec fn diff_member(p: Seq<u8>) -> Option<i64> {
    json_int_member(p, "diff"@)
}

/// The payload is an ASCII JSON document that has all four members.
pub open spec fn members_present(p: Seq<u8>) -> bool {
    &&& ascii_bytes(p)
    &&& json_document(p)
    &&& device_member(p) is Some
    &&& mac_member(p) is Some
    &&& rssi_member(p) is Some
    &&& diff_member(p) is Some
}

/// The record a calibration message carries, if it is one: an ASCII JSON
/// object with the text members `device_identifier` and `mac_address` and
/// the integer members `rssi` and `diff`, both within 16 bits.
pub open spec fn decoded(p: Seq<u8>) -> Option<CalibrationView> {
    if members_present(p) && fits_i16(rssi_member(p)->0) && fits_i16(diff_member(p)->0) {
        Some(
            CalibrationView {
                device_identifier: device_member(p)->0,
                mac_address: mac_member(p)->0,
                rssi: rssi_member(p)->0 as i16,
                diff: diff_member(p)->0 as i16,
            },
        )
    } else {
        None
    }
}

/// Whether every byte of `payload` is ASCII.
pub fn bytes_are_ascii(payload: &[u8]) -> (r: bool)
    ensures
        r == ascii_bytes(payload@),
{
    let mut i: usize = 0;
    while i < payload.len()
        invariant
            0 <= i <= payload.len(),
            forall|j: int| 0 <= j < i ==> #[trigger] payload@[j] < 128,
        decreases payload.len() - i,
    {
        if payload[i] >= 128 {
            return false;
        }
        i = i + 1;
    }
    true
}

/// Builds a calibration record from the fields of a message: every field
/// must be present, and both strengths must fit in 16 bits.
pub fn calibration_from_fields(
    device_identifier: Option<String>,
    mac_address: Option<String>,
    rssi: Option<i64>,
    diff: Option<i64>,
) -> (r: Result<BeaconCalibrationData, DecodeError>)
    ensures
        r is Ok <==> (device_identifier is Some && mac_address is Some && rssi is Some
            && diff is Some && fits_i16(rssi->0) && fits_i16(diff->0)),
        r matches Ok(c) ==> c@ == (CalibrationView {
            device_identifier: device_identifier->0@,
            mac_address: mac_address->0@,
            rssi: rssi->0 as i16,
            diff: diff->0 as i16,
        }),
        r == Err::<BeaconCalibrationData, DecodeError>(DecodeError::MissingField) <==> (
        device_identifier is None || mac_address is None || rssi is None || diff is None),
        r is Err ==> r == Err::<BeaconCalibrationData, DecodeError>(DecodeError::MissingField)
            || r == Err::<BeaconCalibrationData, DecodeError>(DecodeError::OutOfRange),
{
    match (device_identifier, mac_address, rssi, diff) {
        (Some(d), Some(m), Some(x), Some(y)) => {
            if i16::MIN as i64 <= x && x <= i16::MAX as i64 && i16::MIN as i64 <= y && y
                <= i16::MAX as i64 {
                Ok(
                    BeaconCalibrationData {
                        device_identifier: d,
                        mac_address: m,
                        rssi: x as i16,
                        diff: y as i16,
                    },
                )
            } else {
                Err(DecodeError::OutOfRange)
            }
        },
        _ => Err(DecodeError::MissingField),
    }
}

/// Decodes a calibration message: an ASCII JSON object with the text fields
/// `device_identifier` and `mac_address` and the integer fields `rssi` and
/// `diff`. Other members are ignored.
pub fn decode_calibration(payload: &[u8]) -> (r: Result<BeaconCalibrationData, DecodeError>)
    ensures
        r is Ok <==> decoded(payload@) is Some,
        r matches Ok(c) ==> decoded(payload@) == Some(c@),
        r == Err::<BeaconCalibrationData, DecodeError>(DecodeError::NotText) <==> !ascii_bytes(
            payload@,
        ),
        r == Err::<BeaconCalibrationData, DecodeError>(DecodeError::NotJson) <==> ascii_bytes(
            payload@,
        ) && !json_document(payload@),
        r == Err::<BeaconCalibrationData, DecodeError>(DecodeError::MissingField) <==> ascii_bytes(
            payload@,
        ) && json_document(payload@) && !members_present(payload@),
        r == Err::<BeaconCalibrationData, DecodeError>(DecodeError::OutOfRange) <==> members_present(
            payload@,
        ) && decoded(payload@) is None,
{
    if !bytes_are_ascii(payload) {
        return Err(DecodeError::NotText);
    }
    match json_members(payload, "device_identifier", "mac_address", "rssi", "diff") {
        None => Err(DecodeError::NotJson),
        Some(m) => calibration_from_fields(m.0, m.1, m.2, m.3),
    }
}

impl CalibrationStore {
    /// Applies the outcome of decoding one message: a record is inserted, an
    /// error leaves the store as it was and is handed back.
    pub fn apply_decoded(&mut self, decoded: Result<BeaconCalibrationData, DecodeError>) -> (r:
        Result<(), DecodeError>)
        ensures
            decoded matches Ok(c) ==> r is Ok && final(self)@ == upserted(old(self)@, c@),
            decoded matches Err(e) ==> r == Err::<(), DecodeError>(e) && final(self)@ == old(
                self,
            )@,
    {
        match decoded {
            Ok(c) => {
                self.insert(c);
                Ok(())
            },
            Err(e) => Err(e),
        }
    }

    /// Ingests one calibration message: the record it carries is inserted;
    /// a message that carries none leaves the store unchanged.
    pub fn ingest(&mut self, payload: &[u8]) -> (r: Result<(), DecodeError>)
        ensures
            decoded(payload@) matches Some(c) ==> r is Ok && final(self)@ == upserted(
                old(self)@,
                c,
            ),
            decoded(payload@) is None ==> r is Err && final(self)@ == old(self)@,
            r == Err::<(), DecodeError>(DecodeError::NotText) <==> !ascii_bytes(payload@),
    {
        let decoded = decode_calibration(payload);
        self.apply_decoded(decoded)
    }
}

} // verus!
