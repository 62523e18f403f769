//! Identity of the devices an update can target.

use vstd::prelude::*;

verus! {

/// The kind of a target device.
#[derive(Clone, Copy, Debug, PartialEq, Eq, Structural, PartialOrd, Ord, Hash)]
pub enum DeviceKind {
    /// A compute sled.
    Sled,
    /// A rack switch.
    Switch,
    /// A power-shelf controller.
    Power,
}

impl DeviceKind {
    /// Rank used for the total order on devices.
    pub open spec fn rank(self) -> int {
        match self {
            DeviceKind::Sled => 0,
            DeviceKind::Switch => 1,
            DeviceKind::Power => 2,
        }
    }

    /// The largest slot a device of this kind can occupy.
    pub open spec fn max_slot(self) -> int {
        match self {
            DeviceKind::Sled => 31,
            DeviceKind::Switch => 1,
            DeviceKind::Power => 1,
        }
    }
}

/// A target device: its kind and its slot in the rack.
#[derive(Clone, Copy, Debug, PartialEq, Eq, Structural, PartialOrd, Ord, Hash)]
pub struct DeviceId {
    pub kind: DeviceKind,
    pub slot: u16,
}

impl DeviceId {
    /// A valid device's slot lies in its kind's range: sleds occupy slots
    /// zero through thirty-one, switches and power shelves zero and one.
    pub open spec fn wf(self) -> bool {
        self.slot <= self.kind.max_slot()
    }

    /// A single number that orders devices totally, by kind then slot.
    pub open spec fn key(self) -> int {
        self.kind.rank() * 0x10000 + self.slot
    }

    /// Check that the slot is in range for the kind.
    pub fn valid(&self) -> (r: bool)
        ensures
            r == self.wf(),
    {
        let max: u16 = match self.kind {
            DeviceKind::Sled => 31,
            DeviceKind::Switch => 1,
            DeviceKind::Power => 1,
        };
        self.slot <= max
    }

    /// Devices with the same key are the same device.
    pub proof fn lemma_key_injective(a: DeviceId, b: DeviceId)
        ensures
            a.key() == b.key() ==> a == b,
    {
    }
}

} // verus!
