//! The calibration store: for each normalized beacon identity and each
//! publishing device, the most recently ingested calibration record.
use crate::model::{
    ascii_upper, calibration_key, calibration_views, lemma_ascii_upper_idempotent, normalized,
    to_ascii_upper, Beacon, BeaconCalibrationData, BeaconView, CalibrationKey, CalibrationView,
};
use vstd::prelude::*;

verus! {

/// The map that a sequence of records describes when they are inserted in
/// order, a later record replacing an earlier one with the same key.
pub open spec fn calibration_map(s: Seq<CalibrationView>) -> Map<CalibrationKey, CalibrationView>
    decreases s.len(),
{
    if s.len() == 0 {
        Map::empty()
    } else {
        calibration_map(s.drop_last()).insert(calibration_key(s.last()), s.last())
    }
}

/// No two records of `s` share a key.
pub open spec fn unique_keys(s: Seq<CalibrationView>) -> bool {
    forall|i: int, j: int|
        0 <= i < s.len() && 0 <= j < s.len() && i != j ==> calibration_key(#[trigger] s[i])
            != calibration_key(#[trigger] s[j])
}

/// Every identity in the store is in upper-case form.
pub open spec fn keys_normalized(m: Map<CalibrationKey, CalibrationView>) -> bool {
    forall|k: CalibrationKey| #[trigger] m.contains_key(k) ==> ascii_upper(k.0) == k.0
}

/// The store after ingesting `r`: its identity is normalized and it replaces
/// whatever record had the same key.
pub open spec fn upserted(m: Map<CalibrationKey, CalibrationView>, r: CalibrationView) -> Map<
    CalibrationKey,
    CalibrationView,
> {
    m.insert(calibration_key(normalized(r)), normalized(r))
}

/// The keys of the records stored under `identity`.
pub open spec fn keys_under(m: Map<CalibrationKey, CalibrationView>, identity: Seq<char>) -> Set<
    CalibrationKey,
> {
    m.dom().filter(|k: CalibrationKey| k.0 == identity)
}

/// `rows` lists each record stored under `identity` exactly once, and nothing else.
pub open spec fn lists_records_under(
    m: Map<CalibrationKey, CalibrationView>,
    identity: Seq<char>,
    rows: Seq<CalibrationView>,
) -> bool {
    &&& forall|j: int|
        0 <= j < rows.len() ==> (#[trigger] rows[j]).mac_address == identity && m.contains_key(
            calibration_key(rows[j]),
        ) && m[calibration_key(rows[j])] == rows[j]
    &&& forall|k: CalibrationKey|
        #[trigger] m.contains_key(k) && k.0 == identity ==> exists|j: int|
            0 <= j < rows.len() && calibration_key(#[trigger] rows[j]) == k
    &&& unique_keys(rows)
}

/// A listing of the records under `identity` has one row per such record.
pub proof fn lemma_listing_size(
    m: Map<CalibrationKey, CalibrationView>,
    identity: Seq<char>,
    rows: Seq<CalibrationView>,
)
    requires
        lists_records_under(m, identity, rows),
    ensures
        rows.len() == keys_under(m, identity).len(),
{
    let ks = rows.map_values(|r: CalibrationView| calibration_key(r));
    assert(ks.no_duplicates()) by {
        assert forall|i: int, j: int| 0 <= i < ks.len() && 0 <= j < ks.len() && i != j implies ks[i]
            != ks[j] by {
            assert(calibration_key(rows[i]) != calibration_key(rows[j]));
        }
    }
    assert(ks.to_set() =~= keys_under(m, identity)) by {
        assert forall|k: CalibrationKey| ks.to_set().contains(k) implies keys_under(
            m,
            identity,
        ).contains(k) by {
            let j = choose|j: int| 0 <= j < ks.len() && ks[j] == k;
            assert(rows[j].mac_address == identity);
        }
        assert forall|k: CalibrationKey| keys_under(m, identity).contains(k) implies ks.to_set().contains(
            k,
        ) by {
            assert(m.contains_key(k) && k.0 == identity);
            let j = choose|j: int| 0 <= j < rows.len() && calibration_key(#[trigger] rows[j]) == k;
            assert(ks[j] == k);
        }
    }
    ks.unique_seq_to_set();
}

proof fn lemma_map_has_each(s: Seq<CalibrationView>, j: int)
    requires
        unique_keys(s),
        0 <= j < s.len(),
    ensures
        calibration_map(s).contains_key(calibration_key(s[j])),
        calibration_map(s)[calibration_key(s[j])] == s[j],
    decreases s.len(),
{
    if j < s.len() - 1 {
        let d = s.drop_last();
        assert(d[j] == s[j]);
        assert(unique_keys(d)) by {
            assert forall|a: int, b: int|
                0 <= a < d.len() && 0 <= b < d.len() && a != b implies calibration_key(
                #[trigger] d[a],
            ) != calibration_key(#[trigger] d[b]) by {
                assert(d[a] == s[a] && d[b] == s[b]);
            }
        }
        lemma_map_has_each(d, j);
        assert(calibration_key(s[j]) != calibration_key(s[s.len() - 1]));
    }
}

proof fn lemma_map_keys_from(s: Seq<CalibrationView>, k: CalibrationKey)
    requires
        calibration_map(s).contains_key(k),
    ensures
        exists|j: int| 0 <= j < s.len() && calibration_key(#[trigger] s[j]) == k,
    decreases s.len(),
{
    if s.len() > 0 && calibration_key(s.last()) != k {
        let d = s.drop_last();
        lemma_map_keys_from(d, k);
        let j = choose|j: int| 0 <= j < d.len() && calibration_key(#[trigger] d[j]) == k;
        assert(s[j] == d[j]);
    }
}

proof fn lemma_map_normalized(s: Seq<CalibrationView>)
    requires
        forall|i: int| 0 <= i < s.len() ==> ascii_upper((#[trigger] s[i]).mac_address) == s[i].mac_address,
    ensures
        keys_normalized(calibration_map(s)),
{
    assert forall|k: CalibrationKey| #[trigger] calibration_map(s).contains_key(k) implies ascii_upper(k.0)
        == k.0 by {
        lemma_map_keys_from(s, k);
    }
}

proof fn lemma_map_update(s: Seq<CalibrationView>, i: int, r: CalibrationView)
    requires
        unique_keys(s),
        0 <= i < s.len(),
        calibration_key(s[i]) == calibration_key(r),
    ensures
        calibration_map(s.update(i, r)) == calibration_map(s).insert(calibration_key(r), r),
    decreases s.len(),
{
    let u = s.update(i, r);
    let d = s.drop_last();
    if i == s.len() - 1 {
        assert(u.drop_last() =~= d);
    } else {
        assert(u.drop_last() =~= d.update(i, r));
        assert(unique_keys(d)) by {
            assert forall|a: int, b: int|
                0 <= a < d.len() && 0 <= b < d.len() && a != b implies calibration_key(
                #[trigger] d[a],
            ) != calibration_key(#[trigger] d[b]) by {
                assert(d[a] == s[a] && d[b] == s[b]);
            }
        }
        lemma_map_update(d, i, r);
        assert(calibration_key(s[i]) != calibration_key(s.last()));
        assert(calibration_map(u) =~= calibration_map(s).insert(calibration_key(r), r));
    }
}

/// What the sink writes for one observation: each calibration record known
/// for its identity (secondary log), then the observation itself (primary log).
pub struct CorrelatedRows {
    pub calibrations: Vec<BeaconCalibrationData>,
    pub raw: Beacon,
}

/// Calibration records keyed by `(identity, source device)`, at most one per
/// key, identities in upper-case form.
pub struct CalibrationStore {
    records: Vec<BeaconCalibrationData>,
}

impl View for CalibrationStore {
    type V = Map<CalibrationKey, CalibrationView>;

    closed spec fn view(&self) -> Map<CalibrationKey, CalibrationView> {
        calibration_map(calibration_views(self.records@))
    }
}

impl CalibrationStore {
    #[verifier::type_invariant]
    closed spec fn well_formed(self) -> bool {
        let s = calibration_views(self.records@);
        &&& unique_keys(s)
        &&& forall|i: int| 0 <= i < s.len() ==> ascii_upper((#[trigger] s[i]).mac_address) == s[i].mac_address
    }

    /// An empty store.
    pub fn new() -> (r: CalibrationStore)
        ensures
            r@ == Map::<CalibrationKey, CalibrationView>::empty(),
            keys_normalized(r@),
    {
        let r = CalibrationStore { records: Vec::new() };
        assert(calibration_views(r.records@) =~= Seq::<CalibrationView>::empty());
        r
    }

    /// Inserts `record` with its identity upper-cased, replacing the record
    /// stored under the same `(identity, source device)` key, if any.
    pub fn insert(&mut self, record: BeaconCalibrationData)
        ensures
            final(self)@ == upserted(old(self)@, record@),
            keys_normalized(final(self)@),
    {
        proof { use_type_invariant(&*self); }
        let mac = to_ascii_upper(&record.mac_address);
        let rec = BeaconCalibrationData {
            device_identifier: record.device_identifier,
            mac_address: mac,
            rssi: record.rssi,
            diff: record.diff,
        };
        assert(rec@ == normalized(record@));
        proof { lemma_ascii_upper_idempotent(record@.mac_address); }
        let mut records: Vec<BeaconCalibrationData> = Vec::new();
        std::mem::swap(&mut records, &mut self.records);
        let ghost s = calibration_views(records@);
        let mut i: usize = 0;
        while i < records.len()
            invariant
                records@ == old(self).records@,
                s == calibration_views(records@),
                unique_keys(s),
                forall|j: int| 0 <= j < s.len() ==> ascii_upper((#[trigger] s[j]).mac_address) == s[j].mac_address,
                rec@ == normalized(record@),
                ascii_upper(rec@.mac_address) == rec@.mac_address,
                0 <= i <= records.len(),
                forall|j: int| 0 <= j < i ==> calibration_key(#[trigger] s[j]) != calibration_key(rec@),
            decreases records.len() - i,
        {
            if records[i].mac_address == rec.mac_address
                && records[i].device_identifier == rec.device_identifier {
                assert(calibration_key(s[i as int]) == calibration_key(rec@));
                records.set(i, rec);
                proof {
                    assert(calibration_views(records@) =~= s.update(i as int, normalized(record@)));
                    lemma_map_update(s, i as int, normalized(record@));
                }
                self.records = records;
                proof {
                    lemma_map_normalized(calibration_views(self.records@));
                }
                return;
            }
            i = i + 1;
        }
        records.push(rec);
        proof {
            let t = calibration_views(records@);
            assert(t =~= s.push(normalized(record@)));
            assert(t.drop_last() =~= s);
        }
        self.records = records;
        proof {
            lemma_map_normalized(calibration_views(self.records@));
        }
    }

    /// The record published by `device` for the beacon `identity`, matched
    /// case-insensitively on the identity.
    pub fn lookup(&self, identity: &String, device: &String) -> (r: Option<BeaconCalibrationData>)
        ensures
            r is Some <==> self@.contains_key((ascii_upper(identity@), device@)),
            r matches Some(x) ==> x@ == self@[(ascii_upper(identity@), device@)],
    {
        proof { use_type_invariant(self); }
        let key = to_ascii_upper(identity);
        let ghost s = calibration_views(self.records@);
        let ghost k = (key@, device@);
        let mut i: usize = 0;
        while i < self.records.len()
            invariant
                s == calibration_views(self.records@),
                unique_keys(s),
                k == (key@, device@),
                key@ == ascii_upper(identity@),
                0 <= i <= self.records.len(),
                forall|j: int| 0 <= j < i ==> calibration_key(#[trigger] s[j]) != k,
            decreases self.records.len() - i,
        {
            let r = &self.records[i];
            assert(s[i as int] == r@);
            if r.mac_address == key && r.device_identifier == *device {
                proof { lemma_map_has_each(s, i as int); }
                return Some(
                    BeaconCalibrationData {
                        device_identifier: r.device_identifier.clone(),
                        mac_address: r.mac_address.clone(),
                        rssi: r.rssi,
                        diff: r.diff,
                    },
                );
            }
            i = i + 1;
        }
        proof {
            if calibration_map(s).contains_key(k) {
                lemma_map_keys_from(s, k);
            }
        }
        None
    }

    /// Every record stored for the beacon `identity`, matched
    /// case-insensitively, each exactly once, in no particular order.
    pub fn records_for(&self, identity: &String) -> (r: Vec<BeaconCalibrationData>)
        ensures
            lists_records_under(self@, ascii_upper(identity@), calibration_views(r@)),
    {
        proof { use_type_invariant(self); }
        let key = to_ascii_upper(identity);
        let ghost s = calibration_views(self.records@);
        let mut out: Vec<BeaconCalibrationData> = Vec::new();
        let ghost mut idx: Seq<int> = Seq::empty();
        let mut i: usize = 0;
        while i < self.records.len()
            invariant
                s == calibration_views(self.records@),
                unique_keys(s),
                0 <= i <= self.records.len(),
                idx.len() == out.len(),
                forall|j: int|
                    0 <= j < out.len() ==> 0 <= #[trigger] idx[j] < i && out@[j]@ == s[idx[j]]
                        && s[idx[j]].mac_address == key@,
                forall|a: int, b: int| 0 <= a < b < out.len() ==> #[trigger] idx[a] < #[trigger] idx[b],
                forall|t: int|
                    0 <= t < i && (#[trigger] s[t]).mac_address == key@ ==> exists|j: int|
                        0 <= j < idx.len() && idx[j] == t,
            decreases self.records.len() - i,
        {
            let r = &self.records[i];
            assert(s[i as int] == r@);
            let ghost prev = idx;
            if r.mac_address == key {
                out.push(
                    BeaconCalibrationData {
                        device_identifier: r.device_identifier.clone(),
                        mac_address: r.mac_address.clone(),
                        rssi: r.rssi,
                        diff: r.diff,
                    },
                );
                proof {
                    idx = idx.push(i as int);
                    assert(idx[idx.len() - 1] == i);
                }
            }
            proof {
                assert forall|t: int|
                    0 <= t <= i && (#[trigger] s[t]).mac_address == key@ implies exists|j: int|
                    0 <= j < idx.len() && idx[j] == t by {
                    if t < i {
                        let j = choose|j: int| 0 <= j < prev.len() && prev[j] == t;
                        assert(idx[j] == prev[j]);
                    } else {
                        assert(idx[idx.len() - 1] == t);
                    }
                }
            }
            i = i + 1;
        }
        proof {
            let rows = calibration_views(out@);
            let m = calibration_map(s);
            assert forall|j: int| 0 <= j < rows.len() implies (#[trigger] rows[j]).mac_address
                == key@ && m.contains_key(calibration_key(rows[j])) && m[calibration_key(rows[j])]
                == rows[j] by {
                assert(rows[j] == out@[j]@);
                lemma_map_has_each(s, idx[j]);
            }
            assert forall|k: CalibrationKey| #[trigger] m.contains_key(k) && k.0 == key@ implies exists|
                j: int,
            | 0 <= j < rows.len() && calibration_key(#[trigger] rows[j]) == k by {
                lemma_map_keys_from(s, k);
                let t = choose|t: int| 0 <= t < s.len() && calibration_key(#[trigger] s[t]) == k;
                let j = choose|j: int| 0 <= j < idx.len() && idx[j] == t;
                assert(rows[j] == out@[j]@);
            }
            assert forall|a: int, b: int|
                0 <= a < rows.len() && 0 <= b < rows.len() && a != b implies calibration_key(
                #[trigger] rows[a],
            ) != calibration_key(#[trigger] rows[b]) by {
                assert(rows[a] == out@[a]@ && rows[b] == out@[b]@);
                if a < b {
                    assert(idx[a] < idx[b]);
                } else {
                    assert(idx[b] < idx[a]);
                }
            }
        }
        out
    }

    /// The rows the sink writes for `beacon`: one per calibration record
    /// stored under its identity (matched case-insensitively), then the
    /// observation itself.
    pub fn correlate(&self, beacon: &Beacon) -> (r: CorrelatedRows)
        ensures
            r.raw@ == beacon@,
            lists_records_under(
                self@,
                ascii_upper(beacon.mac_address@),
                calibration_views(r.calibrations@),
            ),
            r.calibrations@.len() == keys_under(self@, ascii_upper(beacon.mac_address@)).len(),
            (forall|k: CalibrationKey| #[trigger] self@.contains_key(k) ==> k.0 != ascii_upper(
                beacon.mac_address@,
            )) ==> r.calibrations@.len() == 0,
    {
        let calibrations = self.records_for(&beacon.mac_address);
        proof {
            let identity = ascii_upper(beacon.mac_address@);
            lemma_listing_size(self@, identity, calibration_views(calibrations@));
            if forall|k: CalibrationKey| #[trigger] self@.contains_key(k) ==> k.0 != identity {
                assert(keys_under(self@, identity) =~= Set::empty());
            }
        }
        let raw = Beacon { mac_address: beacon.mac_address.clone(), rssi: beacon.rssi };
        CorrelatedRows { calibrations, raw }
    }
}

} // verus!
