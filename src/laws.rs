//! What holds of the registry across operations: ids stay unique, records
//! of vanished chips are kept or dropped by their data, listing twice
//! changes nothing, and the JSON text of small registries.

use vstd::prelude::*;
use crate::model::Pcap;
use crate::registry::{
    PcapsView, RemovalIndicator, has_chip, has_pcap_id, unique_chip_ids, view_wf, applied,
    with_valid, live_facades, inserted,
};
use crate::controller::{insert_all, decision, decisions_for, pruned, reconciled};
use crate::json::{registry_json, record_json, records_text};

verus! {

/// Inserting the chips of any sequence of entries keeps the registry
/// well-formed: no two records share a chip id, no two share an id, every
/// id is below the next one to be issued. Earlier records stay in place,
/// every record added has an id not issued before, and every entry's chip
/// ends up with a record.
pub proof fn inserts_keep_ids_unique(v: PcapsView, entries: Seq<Pcap>)
    requires
        view_wf(v),
        v.next_id + entries.len() <= i32::MAX,
    ensures
        view_wf(insert_all(v, entries)),
        v.next_id <= insert_all(v, entries).next_id <= v.next_id + entries.len(),
        insert_all(v, entries).records.len() >= v.records.len(),
        insert_all(v, entries).facades == v.facades,
        forall|j: int| 0 <= j < v.records.len() ==> #[trigger] insert_all(v, entries).records[j] == v.records[j],
        forall|j: int|
            v.records.len() <= j < insert_all(v, entries).records.len() ==> (#[trigger] insert_all(
                v,
                entries,
            ).records[j]).id >= v.next_id && has_chip(entries, insert_all(v, entries).records[j].chip_id),
        forall|k: int| 0 <= k < entries.len() ==> has_chip(insert_all(v, entries).records, (#[trigger] entries[k]).chip_id),
    decreases entries.len(),
{
    if entries.len() > 0 {
        let prev = entries.drop_last();
        inserts_keep_ids_unique(v, prev);
        let w = insert_all(v, prev);
        let last = entries.last();
        let u = insert_all(v, entries);
        assert forall|j: int| v.records.len() <= j < w.records.len() implies has_chip(entries, (#[trigger] w.records[j]).chip_id) by {
            let k = choose|k: int| 0 <= k < prev.len() && (#[trigger] prev[k]).chip_id == w.records[j].chip_id;
            assert(entries[k] == prev[k]);
        }
        if !has_chip(w.records, last.chip_id) {
            assert(u == inserted(w, last));
            assert(u.records[w.records.len() as int].chip_id == last.chip_id);
            assert forall|j: int| 0 <= j < u.facades.len() implies has_chip(u.records, (#[trigger] u.facades[j]).1) by {
                let k = choose|k: int| 0 <= k < w.records.len() && (#[trigger] w.records[k]).chip_id == w.facades[j].1;
                assert(u.records[k] == w.records[k]);
            }
            assert(has_chip(entries, last.chip_id)) by {
                assert(entries[entries.len() - 1] == last);
            }
        }
        assert forall|k: int| 0 <= k < entries.len() implies has_chip(u.records, (#[trigger] entries[k]).chip_id) by {
            if k < prev.len() {
                assert(entries[k] == prev[k]);
                assert(has_chip(w.records, prev[k].chip_id));
                let i = choose|i: int| 0 <= i < w.records.len() && (#[trigger] w.records[i]).chip_id == prev[k].chip_id;
                assert(u.records[i] == w.records[i]);
            } else {
                assert(entries[k] == last);
                if has_chip(w.records, last.chip_id) {
                    let i = choose|i: int| 0 <= i < w.records.len() && (#[trigger] w.records[i]).chip_id == last.chip_id;
                    assert(u.records[i] == w.records[i]);
                } else {
                    assert(u.records[w.records.len() as int].chip_id == last.chip_id);
                }
            }
        }
    }
}

proof fn lemma_decisions_drop_last(recs: Seq<Pcap>, entries: Seq<Pcap>)
    requires
        recs.len() > 0,
    ensures
        decisions_for(recs, entries).drop_last() == decisions_for(recs.drop_last(), entries),
        decisions_for(recs, entries).last() == decision(recs.last(), entries),
{
    assert(decisions_for(recs, entries).drop_last() =~= decisions_for(recs.drop_last(), entries));
}

/// A record whose decision is to keep it survives as it is.
proof fn lemma_applied_keeps(recs: Seq<Pcap>, ds: Seq<RemovalIndicator>, j: int)
    requires
        ds.len() == recs.len(),
        0 <= j < recs.len(),
        ds[j] == RemovalIndicator::Keep,
    ensures
        exists|k: int| 0 <= k < applied(recs, ds).len() && applied(recs, ds)[k] == recs[j],
    decreases recs.len(),
{
    let rp = recs.drop_last();
    let dp = ds.drop_last();
    let prev = applied(rp, dp);
    let a = applied(recs, ds);
    if j < recs.len() - 1 {
        assert(rp[j] == recs[j] && dp[j] == ds[j]);
        lemma_applied_keeps(rp, dp, j);
        let k = choose|k: int| 0 <= k < prev.len() && prev[k] == rp[j];
        assert(a[k] == prev[k]);
    } else {
        assert(a[prev.len() as int] == recs[j]);
    }
}

/// A record whose chip is gone but which holds data survives marked invalid.
proof fn lemma_applied_invalidates(recs: Seq<Pcap>, ds: Seq<RemovalIndicator>, j: int)
    requires
        ds.len() == recs.len(),
        0 <= j < recs.len(),
        ds[j] == RemovalIndicator::Gone,
    ensures
        exists|k: int|
            0 <= k < applied(recs, ds).len() && applied(recs, ds)[k] == with_valid(recs[j], false),
    decreases recs.len(),
{
    let rp = recs.drop_last();
    let dp = ds.drop_last();
    let prev = applied(rp, dp);
    let a = applied(recs, ds);
    if j < recs.len() - 1 {
        assert(rp[j] == recs[j] && dp[j] == ds[j]);
        lemma_applied_invalidates(rp, dp, j);
        let k = choose|k: int| 0 <= k < prev.len() && prev[k] == with_valid(rp[j], false);
        assert(a[k] == prev[k]);
    } else {
        assert(a[prev.len() as int] == with_valid(recs[j], false));
    }
}

/// Every surviving record has the chip id of a record whose decision was
/// not deletion.
proof fn lemma_applied_origin(recs: Seq<Pcap>, ds: Seq<RemovalIndicator>, k: int)
    requires
        ds.len() == recs.len(),
        0 <= k < applied(recs, ds).len(),
    ensures
        exists|j: int|
            0 <= j < recs.len() && ds[j] != RemovalIndicator::Unused
                && applied(recs, ds)[k].chip_id == recs[j].chip_id,
    decreases recs.len(),
{
    let rp = recs.drop_last();
    let dp = ds.drop_last();
    let prev = applied(rp, dp);
    let a = applied(recs, ds);
    if k < prev.len() {
        assert(a[k] == prev[k]);
        lemma_applied_origin(rp, dp, k);
        let j = choose|j: int| 0 <= j < rp.len() && dp[j] != RemovalIndicator::Unused && prev[k].chip_id == rp[j].chip_id;
        assert(rp[j] == recs[j] && dp[j] == ds[j]);
    } else {
        assert(recs[recs.len() - 1].chip_id == a[k].chip_id);
    }
}

/// Reconciliation keeps the record of a vanished chip that holds data,
/// marked invalid: it can still be found by its chip id and by its id.
pub proof fn vanished_chip_with_data_is_kept(v: PcapsView, entries: Seq<Pcap>, j: int)
    requires
        view_wf(v),
        v.next_id + entries.len() <= i32::MAX,
        0 <= j < v.records.len(),
        v.records[j].size > 0,
        !has_chip(entries, v.records[j].chip_id),
    ensures
        exists|k: int|
            0 <= k < reconciled(v, entries).records.len()
                && reconciled(v, entries).records[k] == with_valid(v.records[j], false),
        has_chip(reconciled(v, entries).records, v.records[j].chip_id),
        has_pcap_id(reconciled(v, entries).records, v.records[j].id),
{
    inserts_keep_ids_unique(v, entries);
    let w = insert_all(v, entries);
    let ds = decisions_for(w.records, entries);
    assert(w.records[j] == v.records[j]);
    assert(ds[j] == RemovalIndicator::Gone);
    lemma_applied_invalidates(w.records, ds, j);
    let k = choose|k: int| 0 <= k < applied(w.records, ds).len() && applied(w.records, ds)[k] == with_valid(w.records[j], false);
    assert(reconciled(v, entries).records[k].chip_id == v.records[j].chip_id);
    assert(reconciled(v, entries).records[k].id == v.records[j].id);
}

/// Reconciliation deletes the record of a vanished chip that holds no data:
/// afterwards no record has its chip id.
pub proof fn vanished_chip_without_data_is_deleted(v: PcapsView, entries: Seq<Pcap>, j: int)
    requires
        view_wf(v),
        v.next_id + entries.len() <= i32::MAX,
        0 <= j < v.records.len(),
        v.records[j].size == 0,
        !has_chip(entries, v.records[j].chip_id),
    ensures
        !has_chip(reconciled(v, entries).records, v.records[j].chip_id),
{
    inserts_keep_ids_unique(v, entries);
    let w = insert_all(v, entries);
    let ds = decisions_for(w.records, entries);
    assert(w.records[j] == v.records[j]);
    assert(ds[j] == RemovalIndicator::Unused);
    let a = applied(w.records, ds);
    if has_chip(a, v.records[j].chip_id) {
        let k = choose|k: int| 0 <= k < a.len() && (#[trigger] a[k]).chip_id == v.records[j].chip_id;
        lemma_applied_origin(w.records, ds, k);
        let i = choose|i: int| 0 <= i < w.records.len() && ds[i] != RemovalIndicator::Unused && a[k].chip_id == w.records[i].chip_id;
        assert(unique_chip_ids(w.records));
        assert(i != j);
    }
}

proof fn lemma_insert_all_present(u: PcapsView, entries: Seq<Pcap>)
    requires
        forall|k: int| 0 <= k < entries.len() ==> has_chip(u.records, (#[trigger] entries[k]).chip_id),
    ensures
        insert_all(u, entries) == u,
    decreases entries.len(),
{
    if entries.len() > 0 {
        let prev = entries.drop_last();
        assert forall|k: int| 0 <= k < prev.len() implies has_chip(u.records, (#[trigger] prev[k]).chip_id) by {
            assert(prev[k] == entries[k]);
        }
        lemma_insert_all_present(u, prev);
        assert(entries[entries.len() - 1] == entries.last());
    }
}

proof fn lemma_pruned_idempotent(recs: Seq<Pcap>, entries: Seq<Pcap>)
    ensures
        pruned(pruned(recs, entries), entries) == pruned(recs, entries),
    decreases recs.len(),
{
    if recs.len() > 0 {
        let rp = recs.drop_last();
        lemma_pruned_idempotent(rp, entries);
        lemma_decisions_drop_last(recs, entries);
        let prev = pruned(rp, entries);
        let p = pruned(recs, entries);
        let x = recs.last();
        match decision(x, entries) {
            RemovalIndicator::Unused => {
                assert(p == prev);
            },
            RemovalIndicator::Keep => {
                assert(p == prev.push(x));
                assert(p.drop_last() =~= prev);
                lemma_decisions_drop_last(p, entries);
            },
            RemovalIndicator::Gone => {
                let y = with_valid(x, false);
                assert(p == prev.push(y));
                assert(p.drop_last() =~= prev);
                lemma_decisions_drop_last(p, entries);
                assert(decision(y, entries) == RemovalIndicator::Gone);
                assert(with_valid(y, false) == y);
            },
        }
    }
}

proof fn lemma_live_facades_idempotent(facades: Seq<(i32, i32)>, recs: Seq<Pcap>)
    ensures
        live_facades(live_facades(facades, recs), recs) == live_facades(facades, recs),
    decreases facades.len(),
{
    if facades.len() > 0 {
        let prev = facades.drop_last();
        lemma_live_facades_idempotent(prev, recs);
        let l = live_facades(facades, recs);
        if has_chip(recs, facades.last().1) {
            assert(l.drop_last() =~= live_facades(prev, recs));
        }
    }
}

/// Listing twice with the same topology gives the same registry, and so the
/// same JSON text, as listing once: ids, records and their order stay.
pub proof fn listing_is_idempotent(v: PcapsView, entries: Seq<Pcap>)
    requires
        view_wf(v),
        v.next_id + entries.len() <= i32::MAX,
    ensures
        reconciled(reconciled(v, entries), entries) == reconciled(v, entries),
        registry_json(reconciled(reconciled(v, entries), entries).records) == registry_json(
            reconciled(v, entries).records,
        ),
{
    inserts_keep_ids_unique(v, entries);
    let w = insert_all(v, entries);
    let r1 = reconciled(v, entries);
    let ds = decisions_for(w.records, entries);
    assert forall|k: int| 0 <= k < entries.len() implies has_chip(r1.records, (#[trigger] entries[k]).chip_id) by {
        let i = choose|i: int| 0 <= i < w.records.len() && (#[trigger] w.records[i]).chip_id == entries[k].chip_id;
        assert(has_chip(entries, w.records[i].chip_id));
        assert(ds[i] == RemovalIndicator::Keep);
        lemma_applied_keeps(w.records, ds, i);
        let m = choose|m: int| 0 <= m < r1.records.len() && r1.records[m] == w.records[i];
        assert(r1.records[m].chip_id == entries[k].chip_id);
    }
    lemma_insert_all_present(r1, entries);
    lemma_pruned_idempotent(w.records, entries);
    lemma_live_facades_idempotent(w.facades, r1.records);
}

/// The JSON text of an empty registry is `{}`; that of a registry with one
/// record lists that record alone, with no comma after it.
pub proof fn json_of_zero_and_one_records(p: Pcap)
    ensures
        registry_json(Seq::<Pcap>::empty()) == "{}"@,
        registry_json(seq![p]) == "{\"pcaps\": ["@ + record_json(p) + "]}"@,
{
    let one = seq![p];
    assert(one.drop_last() =~= Seq::<Pcap>::empty());
    reveal_strlit(",");
    assert((record_json(p) + ","@).drop_last() =~= record_json(p));
    assert(one.last() == p);
    assert(records_text(Seq::<Pcap>::empty()) == Seq::<char>::empty());
    assert(records_text(one) =~= record_json(p) + ","@);
}

} // verus!
