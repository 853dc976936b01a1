//! One scan cycle: turning what the adapter reported into an observation batch.
use crate::model::{beacon_views, Beacon, BeaconView};
use vstd::prelude::*;

verus! {

/// A device the adapter listed: its address and, when its properties could
/// be read and carried a signal strength, that strength.
#[derive(Clone, Debug)]
pub struct DeviceReading {
    pub address: String,
    pub rssi: Option<i16>,
}

/// The adapter could not list its devices at all.
#[derive(Debug)]
pub struct AdapterError;

/// The batch that the readings `s` give: one observation for each device
/// whose signal strength was read, in the order listed.
pub open spec fn batch_of(s: Seq<DeviceReading>) -> Seq<BeaconView>
    decreases s.len(),
{
    if s.len() == 0 {
        Seq::empty()
    } else {
        let rest = batch_of(s.drop_last());
        match s.last().rssi {
            Some(x) => rest.push(BeaconView { mac_address: s.last().address@, rssi: x }),
            None => rest,
        }
    }
}

/// The observation batch of one scan cycle: devices whose signal strength
/// could not be read are left out, the others kept in order.
pub fn collect_batch(readings: &Vec<DeviceReading>) -> (r: Vec<Beacon>)
    ensures
        beacon_views(r@) == batch_of(readings@),
{
    let mut out: Vec<Beacon> = Vec::new();
    let mut i: usize = 0;
    while i < readings.len()
        invariant
            0 <= i <= readings.len(),
            beacon_views(out@) == batch_of(readings@.take(i as int)),
        decreases readings.len() - i,
    {
        let d = &readings[i];
        assert(readings@.take(i + 1).drop_last() =~= readings@.take(i as int));
        assert(readings@.take(i + 1).last() == *d);
        match d.rssi {
            Some(x) => {
                let ghost before = out@;
                out.push(Beacon { mac_address: d.address.clone(), rssi: x });
                assert(beacon_views(out@) =~= beacon_views(before).push(
                    BeaconView { mac_address: d.address@, rssi: x },
                ));
            },
            None => {},
        }
        i = i + 1;
    }
    assert(readings@.take(readings.len() as int) =~= readings@);
    out
}

/// What one tick of the scanner emits: nothing when the adapter query
/// failed, otherwise the batch of the devices read, empty ones included.
pub fn scan_cycle(query: Result<Vec<DeviceReading>, AdapterError>) -> (r: Option<Vec<Beacon>>)
    ensures
        query is Err ==> r is None,
        query matches Ok(v) ==> (r matches Some(b) && beacon_views(b@) == batch_of(v@)),
{
    match query {
        Ok(v) => Some(collect_batch(&v)),
        Err(_) => None,
    }
}

} // verus!
