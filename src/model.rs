//! Records that flow through the pipeline, their views, and the
//! case normalization of beacon identities.
use vstd::prelude::*;

verus! {

/// One beacon sighting in a scan cycle: the beacon's hardware address and
/// the received signal strength.
#[derive(Clone, Debug)]
pub struct Beacon {
    pub mac_address: String,
    pub rssi: i16,
}

/// The mathematical content of a [`Beacon`].
pub struct BeaconView {
    pub mac_address: Seq<char>,
    pub rssi: i16,
}

impl View for Beacon {
    type V = BeaconView;

    open spec fn view(&self) -> BeaconView {
        BeaconView { mac_address: self.mac_address@, rssi: self.rssi }
    }
}

/// A correction datum published by a reference device (`device_identifier`)
/// for one beacon (`mac_address`): the reference device's own reading of the
/// beacon and the offset between expected and observed strength.
#[derive(Clone, Debug)]
pub struct BeaconCalibrationData {
    pub device_identifier: String,
    pub mac_address: String,
    pub rssi: i16,
    pub diff: i16,
}

/// The mathematical content of a [`BeaconCalibrationData`].
pub struct CalibrationView {
    pub device_identifier: Seq<char>,
    pub mac_address: Seq<char>,
    pub rssi: i16,
    pub diff: i16,
}

impl View for BeaconCalibrationData {
    type V = CalibrationView;

    open spec fn view(&self) -> CalibrationView {
        CalibrationView {
            device_identifier: self.device_identifier@,
            mac_address: self.mac_address@,
            rssi: self.rssi,
            diff: self.diff,
        }
    }
}

/// A calibration record is identified by the beacon it corrects and the
/// device that published it: `(identity, source device)`.
pub type CalibrationKey = (Seq<char>, Seq<char>);

pub open spec fn calibration_key(r: CalibrationView) -> CalibrationKey {
    (r.mac_address, r.device_identifier)
}

pub open spec fn calibration_views(s: Seq<BeaconCalibrationData>) -> Seq<CalibrationView> {
    s.map_values(|r: BeaconCalibrationData| r@)
}

pub open spec fn beacon_views(s: Seq<Beacon>) -> Seq<BeaconView> {
    s.map_values(|b: Beacon| b@)
}

/// `c` with an ASCII lower-case letter replaced by its upper-case form.
pub open spec fn ascii_upper_char(c: char) -> char {
    if 'a' <= c && c <= 'z' {
        ((c as u32) - 32) as char
    } else {
        c
    }
}

/// `s` with every ASCII lower-case letter made upper-case; other characters kept.
pub open spec fn ascii_upper(s: Seq<char>) -> Seq<char> {
    s.map_values(|c: char| ascii_upper_char(c))
}

/// A record whose beacon identity is in its normalized (upper-case) form.
pub open spec fn normalized(r: CalibrationView) -> CalibrationView {
    CalibrationView { mac_address: ascii_upper(r.mac_address), ..r }
}

/// Upper-casing twice is upper-casing once.
pub proof fn lemma_ascii_upper_idempotent(s: Seq<char>)
    ensures
        ascii_upper(ascii_upper(s)) == ascii_upper(s),
{
    assert forall|i: int| 0 <= i < s.len() implies #[trigger] ascii_upper(ascii_upper(s))[i]
        == ascii_upper(s)[i] by {
        let c = s[i];
        if 'a' <= c && c <= 'z' {
            assert((((c as u32) - 32) as char) as u32 == (c as u32) - 32);
        }
    }
    assert(ascii_upper(ascii_upper(s)) =~= ascii_upper(s));
}

/// Relies on `str::to_ascii_uppercase`: ASCII letters 'a'..='z' become
/// upper-case, every other character is kept.
#[verifier::external_body]
pub(crate) fn to_ascii_upper(s: &String) -> (r: String)
    ensures
        r@ == ascii_upper(s@),
{
    s.as_str().to_ascii_uppercase()
}

} // verus!
