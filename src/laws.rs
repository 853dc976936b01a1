//! Properties that relate several operations of the pipeline.
use crate::model::{
    ascii_upper, calibration_key, normalized, BeaconView, CalibrationKey, CalibrationView,
};
use crate::scan::{batch_of, DeviceReading};
use crate::store::{keys_under, upserted};
use vstd::prelude::*;

verus! {

/// Ingesting a record and then another with the same `(identity, source
/// device)` key leaves the store as if only the second had been ingested:
/// the second record is the one retrieved under that key.
pub proof fn lemma_last_write_wins(
    m: Map<CalibrationKey, CalibrationView>,
    a: CalibrationView,
    b: CalibrationView,
)
    requires
        calibration_key(normalized(a)) == calibration_key(normalized(b)),
    ensures
        upserted(upserted(m, a), b) == upserted(m, b),
        upserted(upserted(m, a), b)[calibration_key(normalized(b))] == normalized(b),
{
    assert(upserted(upserted(m, a), b) =~= upserted(m, b));
}

/// A record ingested for a beacon is found under every spelling of its
/// identity that differs only in the case of ASCII letters.
pub proof fn lemma_identity_case_insensitive(
    m: Map<CalibrationKey, CalibrationView>,
    r: CalibrationView,
    identity: Seq<char>,
)
    requires
        ascii_upper(identity) == ascii_upper(r.mac_address),
    ensures
        upserted(m, r).contains_key((ascii_upper(identity), r.device_identifier)),
        upserted(m, r)[(ascii_upper(identity), r.device_identifier)] == normalized(r),
        keys_under(upserted(m, r), ascii_upper(identity)).contains(calibration_key(normalized(r))),
{
}

proof fn lemma_batch_concat(a: Seq<DeviceReading>, b: Seq<DeviceReading>)
    ensures
        batch_of(a + b) == batch_of(a) + batch_of(b),
    decreases b.len(),
{
    if b.len() == 0 {
        assert(a + b =~= a);
        assert(batch_of(a) + batch_of(b) =~= batch_of(a));
    } else {
        assert((a + b).drop_last() =~= a + b.drop_last());
        assert((a + b).last() == b.last());
        lemma_batch_concat(a, b.drop_last());
        match b.last().rssi {
            Some(x) => {
                assert(batch_of(a) + batch_of(b) =~= (batch_of(a) + batch_of(b.drop_last())).push(
                    BeaconView { mac_address: b.last().address@, rssi: x },
                ));
            },
            None => {},
        }
    }
}

/// A device whose signal strength could not be read is left out of the
/// batch, and only it: the batch is the one the other devices give alone.
pub proof fn lemma_unreadable_device_dropped(
    before: Seq<DeviceReading>,
    failed: DeviceReading,
    after: Seq<DeviceReading>,
)
    requires
        failed.rssi is None,
    ensures
        batch_of(before.push(failed) + after) == batch_of(before + after),
{
    lemma_batch_concat(before.push(failed), after);
    lemma_batch_concat(before, after);
    assert(before.push(failed).drop_last() =~= before);
}

} // verus!
