//! Reconciliation: brings the registry in line with a snapshot of the device
//! topology, then renders it for clients.

use vstd::prelude::*;
use crate::model::{Pcap, Chip, ChipId, Device, fresh_record, new_with_entry};
use crate::registry::{
    Pcaps, PcapsView, RemovalIndicator, has_chip, inserted, applied, live_facades, with_valid,
    view_wf,
};
use crate::json::{registry_json, records_to_json};

verus! {

/// The records that the chips of one device would get.
pub open spec fn device_entries(d: Device) -> Seq<Pcap> {
    d.chips@.map_values(|c: Chip| fresh_record(c.kind, c.id, d.name))
}

/// The records that the chips of a topology would get, device by device.
pub open spec fn snapshot_of(ds: Seq<Device>) -> Seq<Pcap>
    decreases ds.len(),
{
    if ds.len() == 0 {
        Seq::<Pcap>::empty()
    } else {
        snapshot_of(ds.drop_last()) + device_entries(ds.last())
    }
}

/// The registry after each entry whose chip has no record yet is inserted,
/// in order.
pub open spec fn insert_all(v: PcapsView, entries: Seq<Pcap>) -> PcapsView
    decreases entries.len(),
{
    if entries.len() == 0 {
        v
    } else {
        let w = insert_all(v, entries.drop_last());
        if has_chip(w.records, entries.last().chip_id) {
            w
        } else {
            inserted(w, entries.last())
        }
    }
}

/// What becomes of a record: it stays while its chip is in the snapshot;
/// once the chip is gone it is marked invalid if it holds data, deleted if
/// not.
pub open spec fn decision(p: Pcap, entries: Seq<Pcap>) -> RemovalIndicator {
    if has_chip(entries, p.chip_id) {
        RemovalIndicator::Keep
    } else if p.size == 0 {
        RemovalIndicator::Unused
    } else {
        RemovalIndicator::Gone
    }
}

/// The decision for each record, in order.
pub open spec fn decisions_for(recs: Seq<Pcap>, entries: Seq<Pcap>) -> Seq<RemovalIndicator> {
    recs.map_values(|p: Pcap| decision(p, entries))
}

/// The records once every decision is applied.
pub open spec fn pruned(recs: Seq<Pcap>, entries: Seq<Pcap>) -> Seq<Pcap> {
    applied(recs, decisions_for(recs, entries))
}

/// The registry after reconciliation with a snapshot: new chips inserted,
/// then records of vanished chips marked invalid or deleted, and facade
/// entries of deleted records dropped.
pub open spec fn reconciled(v: PcapsView, entries: Seq<Pcap>) -> PcapsView {
    let w = insert_all(v, entries);
    let recs = pruned(w.records, entries);
    PcapsView { records: recs, facades: live_facades(w.facades, recs), next_id: w.next_id }
}

/// The records for the chips of a topology snapshot, device by device and
/// chip by chip; each is fresh: capture off, valid, no data.
pub fn get_pcaps_from_devices(devices: &Vec<Device>) -> (r: Vec<Pcap>)
    ensures
        r@ == snapshot_of(devices@),
{
    let mut out: Vec<Pcap> = Vec::new();
    let mut i: usize = 0;
    while i < devices.len()
        invariant
            0 <= i <= devices@.len(),
            out@ == snapshot_of(devices@.take(i as int)),
        decreases devices@.len() - i,
    {
        let device = &devices[i];
        let ghost before = out@;
        let mut k: usize = 0;
        while k < device.chips.len()
            invariant
                0 <= k <= device.chips@.len(),
                out@ == before + device_entries(*device).take(k as int),
            decreases device.chips@.len() - k,
        {
            let chip = device.chips[k];
            out.push(new_with_entry(chip.kind, chip.id, device.name.clone()));
            assert(device_entries(*device).take(k + 1) =~= device_entries(*device).take(k as int).push(
                fresh_record(chip.kind, chip.id, device.name),
            ));
            assert(out@ =~= before + device_entries(*device).take(k + 1));
            k = k + 1;
        }
        assert(device_entries(*device).take(k as int) =~= device_entries(*device));
        assert(devices@.take(i + 1).drop_last() =~= devices@.take(i as int));
        i = i + 1;
    }
    assert(devices@.take(devices@.len() as int) =~= devices@);
    out
}

fn has_entry(entries: &Vec<Pcap>, chip_id: ChipId) -> (r: bool)
    ensures
        r == has_chip(entries@, chip_id),
{
    let mut i: usize = 0;
    while i < entries.len()
        invariant
            0 <= i <= entries@.len(),
            forall|j: int| 0 <= j < i ==> (#[trigger] entries@[j]).chip_id != chip_id,
        decreases entries@.len() - i,
    {
        if entries[i].chip_id == chip_id {
            return true;
        }
        i = i + 1;
    }
    false
}

/// Reconciles the registry with a topology snapshot and returns the JSON
/// text of its records. With no snapshot (the topology could not be read)
/// the registry is left as it is: nothing is added and nothing removed.
pub fn handle_pcap_list(pcaps: &mut Pcaps, devices: Option<&Vec<Device>>) -> (r: String)
    requires
        old(pcaps).wf(),
        match devices {
            Some(ds) => old(pcaps)@.next_id + snapshot_of(ds@).len() <= i32::MAX,
            None => true,
        },
    ensures
        final(pcaps).wf(),
        match devices {
            Some(ds) => final(pcaps)@ == reconciled(old(pcaps)@, snapshot_of(ds@)),
            None => final(pcaps)@ == old(pcaps)@,
        },
        r@ == registry_json(final(pcaps)@.records),
{
    let ds = match devices {
        Some(ds) => ds,
        None => {
            return records_to_json(pcaps.values());
        },
    };
    let entries = get_pcaps_from_devices(ds);
    let ghost start = pcaps@;

    // Chips seen for the first time get a record.
    let mut i: usize = 0;
    while i < entries.len()
        invariant
            0 <= i <= entries@.len(),
            entries@ == snapshot_of(ds@),
            start.next_id + entries@.len() <= i32::MAX,
            pcaps.wf(),
            pcaps@ == insert_all(start, entries@.take(i as int)),
            pcaps@.next_id <= start.next_id + i,
        decreases entries@.len() - i,
    {
        assert(entries@.take(i + 1).drop_last() =~= entries@.take(i as int));
        if !pcaps.contains_pcap(&entries[i]) {
            pcaps.insert(entries[i].duplicate());
        }
        i = i + 1;
    }
    assert(entries@.take(entries@.len() as int) =~= entries@);

    // Decide the fate of every record first, then apply the decisions.
    let ghost grown = pcaps@;
    let mut removal: Vec<RemovalIndicator> = Vec::new();
    let mut j: usize = 0;
    while j < pcaps.values().len()
        invariant
            0 <= j <= grown.records.len(),
            pcaps@ == grown,
            removal@ == decisions_for(grown.records, entries@).take(j as int),
        decreases grown.records.len() - j,
    {
        let pcap = &pcaps.values()[j];
        let indicator = if has_entry(&entries, pcap.chip_id) {
            RemovalIndicator::Keep
        } else if pcap.size == 0 {
            RemovalIndicator::Unused
        } else {
            RemovalIndicator::Gone
        };
        removal.push(indicator);
        assert(removal@ =~= decisions_for(grown.records, entries@).take(j + 1));
        j = j + 1;
    }
    assert(removal@ =~= decisions_for(grown.records, entries@));
    pcaps.apply_removals(&removal);
    records_to_json(pcaps.values())
}

} // verus!
