//! Capture records, the radio chips they belong to, and the devices that
//! carry those chips.

use vstd::prelude::*;

verus! {

/// Id of a chip in the device topology.
pub type ChipId = i32;

/// Id used by the simulation backend to route traffic to a capture.
pub type FacadeId = i32;

/// Id that the registry hands out to a capture record.
pub type PcapId = i32;

/// Kind of a simulated radio chip.
#[derive(Clone, Copy, Debug, PartialEq, Eq, Structural)]
pub enum ChipKind {
    Unspecified,
    Bluetooth,
    Uwb,
    Wifi,
}

/// Whether a capture is running.
#[derive(Clone, Copy, Debug, PartialEq, Eq, Structural)]
pub enum State {
    Unknown,
    On,
    Off,
}

/// One capture record: the state of the capture of one chip.
#[derive(Debug)]
pub struct Pcap {
    pub id: PcapId,
    pub chip_kind: ChipKind,
    pub chip_id: ChipId,
    pub device_name: String,
    pub state: State,
    pub size: i32,
    pub records: i32,
    pub timestamp: i64,
    pub valid: bool,
}

/// A chip as the topology reports it.
#[derive(Clone, Copy, Debug, PartialEq, Eq, Structural)]
pub struct Chip {
    pub id: ChipId,
    pub kind: ChipKind,
}

/// A device as the topology reports it: a name and the chips it carries.
#[derive(Debug)]
pub struct Device {
    pub name: String,
    pub chips: Vec<Chip>,
}

/// The record that a chip gets when it is first seen: capture off, valid,
/// and no data yet. The id is left for the registry to assign.
pub open spec fn fresh_record(chip_kind: ChipKind, chip_id: ChipId, device_name: String) -> Pcap {
    Pcap {
        id: 0,
        chip_kind,
        chip_id,
        device_name,
        state: State::Off,
        size: 0,
        records: 0,
        timestamp: 0,
        valid: true,
    }
}

/// The name of a capture state, as clients read it.
pub open spec fn state_name(state: State) -> Seq<char> {
    match state {
        State::Unknown => "UNKNOWN"@,
        State::On => "ON"@,
        State::Off => "OFF"@,
    }
}

/// The name of a chip kind, as clients read it.
pub open spec fn chip_kind_name(chip_kind: ChipKind) -> Seq<char> {
    match chip_kind {
        ChipKind::Unspecified => "UNSPECIFIED"@,
        ChipKind::Bluetooth => "BLUETOOTH"@,
        ChipKind::Uwb => "UWB"@,
        ChipKind::Wifi => "WIFI"@,
    }
}

impl Pcap {
    /// An empty record: every number zero, no name, state unknown, not valid.
    pub fn new() -> (r: Pcap)
        ensures
            r.id == 0,
            r.chip_kind == ChipKind::Unspecified,
            r.chip_id == 0,
            r.device_name@ == Seq::<char>::empty(),
            r.state == State::Unknown,
            r.size == 0,
            r.records == 0,
            r.timestamp == 0,
            !r.valid,
    {
        Pcap {
            id: 0,
            chip_kind: ChipKind::Unspecified,
            chip_id: 0,
            device_name: String::new(),
            state: State::Unknown,
            size: 0,
            records: 0,
            timestamp: 0,
            valid: false,
        }
    }

    /// A field-by-field copy of this record.
    pub fn duplicate(&self) -> (r: Pcap)
        ensures
            r == *self,
    {
        Pcap {
            id: self.id,
            chip_kind: self.chip_kind,
            chip_id: self.chip_id,
            device_name: self.device_name.clone(),
            state: self.state,
            size: self.size,
            records: self.records,
            timestamp: self.timestamp,
            valid: self.valid,
        }
    }
}

/// Creates the record of a newly seen chip.
pub fn new_with_entry(chip_kind: ChipKind, chip_id: ChipId, device_name: String) -> (r: Pcap)
    ensures
        r == fresh_record(chip_kind, chip_id, device_name),
{
    Pcap {
        id: 0,
        chip_kind,
        chip_id,
        device_name,
        state: State::Off,
        size: 0,
        records: 0,
        timestamp: 0,
        valid: true,
    }
}

/// The name of a capture state.
pub fn state_to_string(state: State) -> (r: &'static str)
    ensures
        r@ == state_name(state),
{
    match state {
        State::Unknown => "UNKNOWN",
        State::On => "ON",
        State::Off => "OFF",
    }
}

/// The name of a chip kind.
pub fn chip_kind_to_string(chip_kind: ChipKind) -> (r: &'static str)
    ensures
        r@ == chip_kind_name(chip_kind),
{
    match chip_kind {
        ChipKind::Unspecified => "UNSPECIFIED",
        ChipKind::Bluetooth => "BLUETOOTH",
        ChipKind::Uwb => "UWB",
        ChipKind::Wifi => "WIFI",
    }
}

} // verus!
