//! The capture registry: one record per known chip, keyed by chip id, with
//! a secondary index from facade ids and a counter that hands out record ids.

use vstd::prelude::*;
use crate::model::{Pcap, ChipId, FacadeId, PcapId, State};

verus! {

/// The first id that the registry hands out; lower ids belong to other
/// resources.
pub const FIRST_PCAP_ID: i32 = 4000;

/// What the registry holds, as a reader of its contracts sees it.
pub struct PcapsView {
    /// The records, in the order they were inserted.
    pub records: Seq<Pcap>,
    /// The secondary index: pairs of a facade id and the chip id it routes to.
    pub facades: Seq<(FacadeId, ChipId)>,
    /// The id that the next inserted record gets.
    pub next_id: int,
}

/// Whether some record belongs to the chip.
pub open spec fn has_chip(recs: Seq<Pcap>, chip_id: ChipId) -> bool {
    exists|j: int| 0 <= j < recs.len() && (#[trigger] recs[j]).chip_id == chip_id
}

/// Whether some record has the id.
pub open spec fn has_pcap_id(recs: Seq<Pcap>, id: PcapId) -> bool {
    exists|j: int| 0 <= j < recs.len() && (#[trigger] recs[j]).id == id
}

/// No two records share a chip id.
pub open spec fn unique_chip_ids(recs: Seq<Pcap>) -> bool {
    forall|i: int, j: int|
        0 <= i < recs.len() && 0 <= j < recs.len() && i != j ==> (#[trigger] recs[i]).chip_id
            != (#[trigger] recs[j]).chip_id
}

/// No two records share an id.
pub open spec fn unique_pcap_ids(recs: Seq<Pcap>) -> bool {
    forall|i: int, j: int|
        0 <= i < recs.len() && 0 <= j < recs.len() && i != j ==> (#[trigger] recs[i]).id
            != (#[trigger] recs[j]).id
}

/// Every record's id was issued before `next_id`.
pub open spec fn ids_below(recs: Seq<Pcap>, next_id: int) -> bool {
    forall|j: int| 0 <= j < recs.len() ==> (#[trigger] recs[j]).id < next_id
}

/// No two entries of the facade index share a facade id.
pub open spec fn unique_facades(facades: Seq<(FacadeId, ChipId)>) -> bool {
    forall|i: int, j: int|
        0 <= i < facades.len() && 0 <= j < facades.len() && i != j ==> (#[trigger] facades[i]).0
            != (#[trigger] facades[j]).0
}

/// Every entry of the facade index routes to a chip that has a record.
pub open spec fn facades_live(v: PcapsView) -> bool {
    forall|j: int| 0 <= j < v.facades.len() ==> has_chip(v.records, (#[trigger] v.facades[j]).1)
}

/// The registry's invariant.
pub open spec fn view_wf(v: PcapsView) -> bool {
    &&& unique_chip_ids(v.records)
    &&& unique_pcap_ids(v.records)
    &&& ids_below(v.records, v.next_id)
    &&& unique_facades(v.facades)
    &&& facades_live(v)
    &&& FIRST_PCAP_ID <= v.next_id <= i32::MAX
}

/// A record with its id replaced.
pub open spec fn with_id(p: Pcap, id: PcapId) -> Pcap {
    Pcap { id, ..p }
}

/// A record with its capture state replaced.
pub open spec fn with_state(p: Pcap, state: State) -> Pcap {
    Pcap { state, ..p }
}

/// A record with its validity replaced.
pub open spec fn with_valid(p: Pcap, valid: bool) -> Pcap {
    Pcap { valid, ..p }
}

/// The registry after an insertion: the record takes the next id and goes
/// last.
pub open spec fn inserted(v: PcapsView, p: Pcap) -> PcapsView {
    PcapsView {
        records: v.records.push(with_id(p, v.next_id as i32)),
        facades: v.facades,
        next_id: v.next_id + 1,
    }
}

/// The records after the capture of the record with id `id` is set to
/// `state`; the others stay as they are.
pub open spec fn states_set(recs: Seq<Pcap>, id: PcapId, state: State) -> Seq<Pcap> {
    recs.map_values(|p: Pcap| if p.id == id { with_state(p, state) } else { p })
}

/// The facade index without the entries that route to a chip with no record.
pub open spec fn live_facades(facades: Seq<(FacadeId, ChipId)>, recs: Seq<Pcap>) -> Seq<(FacadeId, ChipId)>
    decreases facades.len(),
{
    if facades.len() == 0 {
        facades
    } else {
        let prev = live_facades(facades.drop_last(), recs);
        if has_chip(recs, facades.last().1) {
            prev.push(facades.last())
        } else {
            prev
        }
    }
}

/// What reconciliation decides for a record: keep it, keep it marked
/// invalid because its chip is gone but it holds data, or delete it because
/// its chip is gone and it holds none.
#[derive(Clone, Copy, Debug, PartialEq, Eq, Structural)]
pub enum RemovalIndicator {
    Keep,
    Gone,
    Unused,
}

/// The records after each decision of `ds` is applied to the record at the
/// same place.
pub open spec fn applied(recs: Seq<Pcap>, ds: Seq<RemovalIndicator>) -> Seq<Pcap>
    decreases recs.len(),
{
    if recs.len() == 0 || ds.len() == 0 {
        Seq::<Pcap>::empty()
    } else {
        let prev = applied(recs.drop_last(), ds.drop_last());
        match ds.last() {
            RemovalIndicator::Keep => prev.push(recs.last()),
            RemovalIndicator::Gone => prev.push(with_valid(recs.last(), false)),
            RemovalIndicator::Unused => prev,
        }
    }
}

/// The records after the counters of the chip's record are replaced.
pub open spec fn counters_set(recs: Seq<Pcap>, chip_id: ChipId, size: i32, records: i32, timestamp: i64) -> Seq<Pcap> {
    recs.map_values(
        |p: Pcap|
            if p.chip_id == chip_id {
                Pcap { size, records, timestamp, ..p }
            } else {
                p
            },
    )
}

/// `kept` is made of records of `recs`, taken in order at the places `src`,
/// each with its chip id and id unchanged.
pub open spec fn drawn_from(kept: Seq<Pcap>, recs: Seq<Pcap>, src: Seq<int>, bound: int) -> bool {
    &&& src.len() == kept.len()
    &&& forall|a: int| 0 <= a < src.len() ==> 0 <= #[trigger] src[a] < bound && src[a] < recs.len()
    &&& forall|a: int, b: int| 0 <= a < b < src.len() ==> #[trigger] src[a] < #[trigger] src[b]
    &&& forall|a: int|
        0 <= a < kept.len() ==> (#[trigger] kept[a]).chip_id == recs[src[a]].chip_id
            && kept[a].id == recs[src[a]].id
}

/// The capture registry.
pub struct Pcaps {
    chip_id_map: Vec<Pcap>,
    facade_id_map: Vec<(FacadeId, ChipId)>,
    current_idx: i32,
}

impl View for Pcaps {
    type V = PcapsView;

    closed spec fn view(&self) -> PcapsView {
        PcapsView {
            records: self.chip_id_map@,
            facades: self.facade_id_map@,
            next_id: self.current_idx as int,
        }
    }
}

impl Pcaps {
    /// The registry's invariant.
    pub open spec fn wf(&self) -> bool {
        view_wf(self@)
    }

    /// An empty registry, whose first record will get the id 4000.
    pub fn new() -> (r: Pcaps)
        ensures
            r.wf(),
            r@.records.len() == 0,
            r@.facades.len() == 0,
            r@.next_id == FIRST_PCAP_ID,
    {
        Pcaps { chip_id_map: Vec::new(), facade_id_map: Vec::new(), current_idx: FIRST_PCAP_ID }
    }

    fn chip_index(&self, key: ChipId) -> (r: Option<usize>)
        ensures
            match r {
                Some(j) => j < self@.records.len() && self@.records[j as int].chip_id == key,
                None => !has_chip(self@.records, key),
            },
    {
        let mut i: usize = 0;
        while i < self.chip_id_map.len()
            invariant
                0 <= i <= self.chip_id_map@.len(),
                self@.records == self.chip_id_map@,
                forall|j: int| 0 <= j < i ==> (#[trigger] self.chip_id_map@[j]).chip_id != key,
            decreases self.chip_id_map@.len() - i,
        {
            if self.chip_id_map[i].chip_id == key {
                return Some(i);
            }
            i = i + 1;
        }
        None
    }

    fn pcap_index(&self, id: PcapId) -> (r: Option<usize>)
        ensures
            match r {
                Some(j) => j < self@.records.len() && self@.records[j as int].id == id,
                None => !has_pcap_id(self@.records, id),
            },
    {
        let mut i: usize = 0;
        while i < self.chip_id_map.len()
            invariant
                0 <= i <= self.chip_id_map@.len(),
                self@.records == self.chip_id_map@,
                forall|j: int| 0 <= j < i ==> (#[trigger] self.chip_id_map@[j]).id != id,
            decreases self.chip_id_map@.len() - i,
        {
            if self.chip_id_map[i].id == id {
                return Some(i);
            }
            i = i + 1;
        }
        None
    }

    /// Whether the chip of `pcap` has a record.
    pub fn contains_pcap(&self, pcap: &Pcap) -> (r: bool)
        ensures
            r == has_chip(self@.records, pcap.chip_id),
    {
        self.chip_index(pcap.chip_id).is_some()
    }

    /// The record of a chip, if it has one.
    pub fn get_by_chip_id(&self, key: ChipId) -> (r: Option<&Pcap>)
        ensures
            match r {
                Some(p) => exists|j: int|
                    0 <= j < self@.records.len() && self@.records[j] == *p && p.chip_id == key,
                None => !has_chip(self@.records, key),
            },
    {
        match self.chip_index(key) {
            Some(j) => Some(&self.chip_id_map[j]),
            None => None,
        }
    }

    /// The record that a facade id routes to, if there is one.
    pub fn get_by_facade_id(&self, key: FacadeId) -> (r: Option<&Pcap>)
        requires
            self.wf(),
        ensures
            match r {
                Some(p) => exists|j: int, k: int|
                    0 <= j < self@.facades.len() && 0 <= k < self@.records.len()
                        && self@.facades[j].0 == key && self@.records[k] == *p
                        && p.chip_id == self@.facades[j].1,
                None => forall|j: int|
                    0 <= j < self@.facades.len() ==> (#[trigger] self@.facades[j]).0 != key,
            },
    {
        let mut i: usize = 0;
        while i < self.facade_id_map.len()
            invariant
                0 <= i <= self.facade_id_map@.len(),
                self@.facades == self.facade_id_map@,
                self.wf(),
                forall|j: int| 0 <= j < i ==> (#[trigger] self.facade_id_map@[j]).0 != key,
            decreases self.facade_id_map@.len() - i,
        {
            if self.facade_id_map[i].0 == key {
                let chip = self.facade_id_map[i].1;
                assert(has_chip(self@.records, self@.facades[i as int].1));
                return self.get_by_chip_id(chip);
            }
            i = i + 1;
        }
        None
    }

    /// The record with the given id, if there is one.
    pub fn get_by_pcap_id(&self, id: PcapId) -> (r: Option<&Pcap>)
        ensures
            match r {
                Some(p) => exists|j: int|
                    0 <= j < self@.records.len() && self@.records[j] == *p && p.id == id,
                None => !has_pcap_id(self@.records, id),
            },
    {
        match self.pcap_index(id) {
            Some(j) => Some(&self.chip_id_map[j]),
            None => None,
        }
    }

    /// Turns the capture of the record with id `id` on (`state`) or off, and
    /// says whether there was such a record.
    pub fn set_state(&mut self, id: PcapId, state: bool) -> (r: bool)
        requires
            old(self).wf(),
        ensures
            final(self).wf(),
            r == has_pcap_id(old(self)@.records, id),
            !r ==> final(self)@ == old(self)@,
            final(self)@.records == states_set(
                old(self)@.records,
                id,
                if state { State::On } else { State::Off },
            ),
            final(self)@.facades == old(self)@.facades,
            final(self)@.next_id == old(self)@.next_id,
    {
        let capture_state = if state { State::On } else { State::Off };
        let ghost target = states_set(old(self)@.records, id, capture_state);
        match self.pcap_index(id) {
            Some(j) => {
                let mut p = self.chip_id_map[j].duplicate();
                p.state = capture_state;
                self.chip_id_map.set(j, p);
                assert(self.chip_id_map@ =~= target);
                proof { self.keep_wf(old(self)@); }
                true
            },
            None => {
                assert(old(self)@.records =~= target);
                false
            },
        }
    }

    proof fn keep_wf(&self, prev: PcapsView)
        requires
            view_wf(prev),
            self@.facades == prev.facades,
            self@.next_id == prev.next_id,
            self@.records.len() == prev.records.len(),
            forall|j: int|
                0 <= j < prev.records.len() ==> (#[trigger] self@.records[j]).id == prev.records[j].id
                    && self@.records[j].chip_id == prev.records[j].chip_id,
        ensures
            self.wf(),
    {
        assert forall|j: int| 0 <= j < self@.facades.len() implies has_chip(
            self@.records,
            (#[trigger] self@.facades[j]).1,
        ) by {
            let k = choose|k: int| 0 <= k < prev.records.len() && (#[trigger] prev.records[k]).chip_id
                == prev.facades[j].1;
            assert(self@.records[k].chip_id == prev.facades[j].1);
        }
    }

    /// Adds the record of a chip that has none; the record takes the next id.
    pub fn insert(&mut self, pcap: Pcap)
        requires
            old(self).wf(),
            !has_chip(old(self)@.records, pcap.chip_id),
            old(self)@.next_id < i32::MAX,
        ensures
            final(self).wf(),
            final(self)@ == inserted(old(self)@, pcap),
    {
        let mut pcap = pcap;
        pcap.id = self.current_idx;
        self.chip_id_map.push(pcap);
        self.current_idx = self.current_idx + 1;
        let ghost v = self@;
        assert(v.records =~= inserted(old(self)@, pcap).records);
        assert forall|j: int| 0 <= j < v.facades.len() implies has_chip(
            v.records,
            (#[trigger] v.facades[j]).1,
        ) by {
            let k = choose|k: int|
                0 <= k < old(self)@.records.len() && (#[trigger] old(self)@.records[k]).chip_id
                    == v.facades[j].1;
            assert(v.records[k] == old(self)@.records[k]);
        }
    }

    /// Deletes the record of a chip, and the facade entries that route to
    /// it; does nothing when the chip has no record.
    pub fn remove(&mut self, key: &ChipId)
        requires
            old(self).wf(),
        ensures
            final(self).wf(),
            has_chip(old(self)@.records, *key) ==> exists|j: int|
                0 <= j < old(self)@.records.len() && old(self)@.records[j].chip_id == *key
                    && final(self)@.records == old(self)@.records.remove(j),
            !has_chip(old(self)@.records, *key) ==> final(self)@.records == old(self)@.records,
            final(self)@.facades == live_facades(old(self)@.facades, final(self)@.records),
            final(self)@.next_id == old(self)@.next_id,
    {
        let ghost prev = self@;
        match self.chip_index(*key) {
            Some(j) => {
                self.chip_id_map.remove(j);
                let ghost src = Seq::new((prev.records.len() - 1) as nat, |a: int| if a < j { a } else { a + 1 });
                assert(drawn_from(self@.records, prev.records, src, prev.records.len() as int));
                proof { lemma_drawn_unique(self@.records, prev.records, src, prev.records.len() as int); }
            },
            None => {},
        }
        self.drop_dangling_facades();
    }

    /// Keeps only the facade entries whose chip has a record.
    fn drop_dangling_facades(&mut self)
        requires
            unique_chip_ids(old(self)@.records),
            unique_pcap_ids(old(self)@.records),
            ids_below(old(self)@.records, old(self)@.next_id),
            unique_facades(old(self)@.facades),
            FIRST_PCAP_ID <= old(self)@.next_id <= i32::MAX,
        ensures
            final(self).wf(),
            final(self)@.records == old(self)@.records,
            final(self)@.facades == live_facades(old(self)@.facades, old(self)@.records),
            final(self)@.next_id == old(self)@.next_id,
    {
        let ghost facades = self@.facades;
        let ghost recs = self@.records;
        let mut kept: Vec<(FacadeId, ChipId)> = Vec::new();
        let ghost mut src: Seq<int> = Seq::empty();
        let mut i: usize = 0;
        while i < self.facade_id_map.len()
            invariant
                0 <= i <= facades.len(),
                self.facade_id_map@ == facades,
                self@.records == recs,
                kept@ == live_facades(facades.take(i as int), recs),
                src.len() == kept@.len(),
                forall|a: int| 0 <= a < src.len() ==> 0 <= #[trigger] src[a] < i,
                forall|a: int| 0 <= a < kept@.len() ==> kept@[a] == facades[#[trigger] src[a]],
                forall|a: int| 0 <= a < kept@.len() ==> has_chip(recs, (#[trigger] kept@[a]).1),
                unique_facades(facades),
                unique_facades(kept@),
            decreases facades.len() - i,
        {
            let entry = self.facade_id_map[i];
            assert(facades.take(i + 1).drop_last() =~= facades.take(i as int));
            if self.chip_index(entry.1).is_some() {
                assert forall|a: int| 0 <= a < kept@.len() implies (#[trigger] kept@[a]).0 != entry.0 by {
                    assert(src[a] != i);
                }
                kept.push(entry);
                proof { src = src.push(i as int); }
            }
            i = i + 1;
        }
        assert(facades.take(facades.len() as int) =~= facades);
        self.facade_id_map = kept;
    }

    /// Routes a facade id to the record of a chip, replacing what it routed
    /// to before; says whether the chip has a record, and changes nothing
    /// when it has none.
    pub fn set_facade_id(&mut self, facade_id: FacadeId, chip_id: ChipId) -> (r: bool)
        requires
            old(self).wf(),
        ensures
            final(self).wf(),
            r == has_chip(old(self)@.records, chip_id),
            final(self)@.records == old(self)@.records,
            final(self)@.next_id == old(self)@.next_id,
            !r ==> final(self)@.facades == old(self)@.facades,
            r ==> (exists|k: int|
                0 <= k < old(self)@.facades.len() && old(self)@.facades[k].0 == facade_id
                    && final(self)@.facades == old(self)@.facades.update(k, (facade_id, chip_id)))
                || ((forall|k: int|
                    0 <= k < old(self)@.facades.len() ==> (#[trigger] old(self)@.facades[k]).0
                        != facade_id)
                    && final(self)@.facades == old(self)@.facades.push((facade_id, chip_id))),
    {
        if self.chip_index(chip_id).is_none() {
            return false;
        }
        let mut i: usize = 0;
        while i < self.facade_id_map.len()
            invariant
                0 <= i <= self.facade_id_map@.len(),
                self@ == old(self)@,
                old(self).wf(),
                has_chip(old(self)@.records, chip_id),
                forall|j: int| 0 <= j < i ==> (#[trigger] self.facade_id_map@[j]).0 != facade_id,
            decreases self.facade_id_map@.len() - i,
        {
            if self.facade_id_map[i].0 == facade_id {
                self.facade_id_map.set(i, (facade_id, chip_id));
                assert(self@.facades == old(self)@.facades.update(i as int, (facade_id, chip_id)));
                assert forall|j: int| 0 <= j < self@.facades.len() implies has_chip(
                    self@.records,
                    (#[trigger] self@.facades[j]).1,
                ) by {
                    if j != i {
                        assert(self@.facades[j] == old(self)@.facades[j]);
                    }
                }
                return true;
            }
            i = i + 1;
        }
        self.facade_id_map.push((facade_id, chip_id));
        true
    }

    /// Replaces the capture counters of a chip's record, as the capture
    /// writer reports them; says whether the chip has a record.
    pub fn update_counters(&mut self, chip_id: ChipId, size: i32, records: i32, timestamp: i64) -> (r: bool)
        requires
            old(self).wf(),
        ensures
            final(self).wf(),
            r == has_chip(old(self)@.records, chip_id),
            final(self)@.records == counters_set(old(self)@.records, chip_id, size, records, timestamp),
            final(self)@.facades == old(self)@.facades,
            final(self)@.next_id == old(self)@.next_id,
    {
        let ghost target = counters_set(old(self)@.records, chip_id, size, records, timestamp);
        match self.chip_index(chip_id) {
            Some(j) => {
                let mut p = self.chip_id_map[j].duplicate();
                p.size = size;
                p.records = records;
                p.timestamp = timestamp;
                self.chip_id_map.set(j, p);
                assert(self.chip_id_map@ =~= target);
                proof { self.keep_wf(old(self)@); }
                true
            },
            None => {
                assert(old(self)@.records =~= target);
                false
            },
        }
    }

    /// Applies one decision to each record, the decision at the same place:
    /// keeps it, marks it invalid, or deletes it. Facade entries whose chip
    /// lost its record go too.
    pub fn apply_removals(&mut self, decisions: &Vec<RemovalIndicator>)
        requires
            old(self).wf(),
            decisions@.len() == old(self)@.records.len(),
        ensures
            final(self).wf(),
            final(self)@.records == applied(old(self)@.records, decisions@),
            final(self)@.facades == live_facades(old(self)@.facades, final(self)@.records),
            final(self)@.next_id == old(self)@.next_id,
    {
        let ghost recs = self@.records;
        let mut kept: Vec<Pcap> = Vec::new();
        let ghost mut src: Seq<int> = Seq::empty();
        let mut i: usize = 0;
        while i < self.chip_id_map.len()
            invariant
                0 <= i <= recs.len(),
                self.chip_id_map@ == recs,
                self@ == old(self)@,
                decisions@.len() == recs.len(),
                kept@ == applied(recs.take(i as int), decisions@.take(i as int)),
                drawn_from(kept@, recs, src, i as int),
            decreases recs.len() - i,
        {
            assert(recs.take(i + 1).drop_last() =~= recs.take(i as int));
            assert(decisions@.take(i + 1).drop_last() =~= decisions@.take(i as int));
            match decisions[i] {
                RemovalIndicator::Keep => {
                    kept.push(self.chip_id_map[i].duplicate());
                    proof { src = src.push(i as int); }
                },
                RemovalIndicator::Gone => {
                    let mut p = self.chip_id_map[i].duplicate();
                    p.valid = false;
                    kept.push(p);
                    proof { src = src.push(i as int); }
                },
                RemovalIndicator::Unused => {},
            }
            i = i + 1;
        }
        assert(recs.take(recs.len() as int) =~= recs);
        assert(decisions@.take(recs.len() as int) =~= decisions@);
        proof { lemma_drawn_unique(kept@, recs, src, recs.len() as int); }
        self.chip_id_map = kept;
        self.drop_dangling_facades();
    }

    /// Whether the registry holds no record.
    pub fn is_empty(&self) -> (r: bool)
        ensures
            r == (self@.records.len() == 0),
    {
        self.chip_id_map.len() == 0
    }

    /// The id that the next inserted record gets.
    pub fn next_id(&self) -> (r: i32)
        ensures
            r == self@.next_id,
    {
        self.current_idx
    }

    /// The records, in the order they were inserted.
    pub fn values(&self) -> (r: &Vec<Pcap>)
        ensures
            r@ == self@.records,
    {
        &self.chip_id_map
    }
}

/// Records drawn in order from distinct places of a well-formed list keep
/// its unique ids and chip ids, and stay below the same next id.
proof fn lemma_drawn_unique(kept: Seq<Pcap>, recs: Seq<Pcap>, src: Seq<int>, bound: int)
    requires
        drawn_from(kept, recs, src, bound),
        unique_chip_ids(recs),
        unique_pcap_ids(recs),
    ensures
        unique_chip_ids(kept),
        unique_pcap_ids(kept),
        forall|n: int| ids_below(recs, n) ==> ids_below(kept, n),
{
    assert forall|a: int, b: int| 0 <= a < kept.len() && 0 <= b < kept.len() && a != b implies (
    #[trigger] kept[a]).chip_id != (#[trigger] kept[b]).chip_id && kept[a].id != kept[b].id by {
        if a < b {
            assert(src[a] < src[b]);
        } else {
            assert(src[b] < src[a]);
        }
    }
    assert forall|n: int| ids_below(recs, n) implies ids_below(kept, n) by {
        assert forall|a: int| 0 <= a < kept.len() implies (#[trigger] kept[a]).id < n by {
            assert(recs[src[a]].id < n);
        }
    }
}

} // verus!
