//! Identity and metadata of zone bundles.

use vstd::prelude::*;
use crate::timespan::UtcTime;

verus! {

/// The schema version written into every bundle's metadata.
pub const BUNDLE_METADATA_VERSION: u8 = 0;

/// An identifier for a zone bundle.
#[derive(Clone, Debug, PartialEq, Eq, PartialOrd, Ord, Hash)]
pub struct ZoneBundleId {
    /// The name of the zone this bundle is derived from, as UTF-8 bytes.
    pub zone_name: Vec<u8>,
    /// The unique identifier of this bundle itself, the 128 bits of its
    /// universally unique identifier.
    pub bundle_id: u128,
}

/// The reason or cause for a zone bundle, i.e., why it was created.
///
/// The variants are ordered by cleanup priority: earlier variants are pruned
/// first. The ordering is part of the on-disk cleanup semantics, so
/// reordering the variants is a breaking change.
#[derive(Clone, Copy, Debug, PartialEq, Eq, Structural, PartialOrd, Ord, Hash)]
pub enum ZoneBundleCause {
    /// Some other, unspecified reason.
    Other,
    /// The zone was found running while not expected to be.
    UnexpectedZone,
    /// An instance zone was terminated.
    TerminatedInstance,
    /// An explicit request to the sled agent.
    ExplicitRequest,
}

impl ZoneBundleCause {
    /// Cleanup rank of this cause: lower ranks are pruned first.
    pub open spec fn rank(self) -> int {
        match self {
            ZoneBundleCause::Other => 0,
            ZoneBundleCause::UnexpectedZone => 1,
            ZoneBundleCause::TerminatedInstance => 2,
            ZoneBundleCause::ExplicitRequest => 3,
        }
    }

    /// Executable form of the cleanup rank.
    pub fn rank_u8(&self) -> (r: u8)
        ensures
            r as int == self.rank(),
    {
        match self {
            ZoneBundleCause::Other => 0,
            ZoneBundleCause::UnexpectedZone => 1,
            ZoneBundleCause::TerminatedInstance => 2,
            ZoneBundleCause::ExplicitRequest => 3,
        }
    }

    /// Distinct causes have distinct ranks.
    pub proof fn lemma_rank_injective(a: ZoneBundleCause, b: ZoneBundleCause)
        ensures
            a.rank() == b.rank() ==> a == b,
    {
    }
}

impl Default for ZoneBundleCause {
    /// The unspecified cause.
    fn default() -> (r: ZoneBundleCause)
        ensures
            r == ZoneBundleCause::Other,
    {
        ZoneBundleCause::Other
    }
}

/// Metadata about a zone bundle.
#[derive(Clone, Debug, PartialEq, Eq, PartialOrd, Ord, Hash)]
pub struct ZoneBundleMetadata {
    /// Identifier for this zone bundle.
    pub id: ZoneBundleId,
    /// The time at which this zone bundle was created.
    pub time_created: UtcTime,
    /// A version number for this zone bundle.
    pub version: u8,
    /// The reason or cause a bundle was created.
    pub cause: ZoneBundleCause,
}

impl ZoneBundleMetadata {
    pub open spec fn wf(self) -> bool {
        &&& self.time_created.wf()
        &&& self.version == BUNDLE_METADATA_VERSION
    }

    /// Create a new set of metadata for the provided zone.
    ///
    /// The fresh bundle identifier and the current wall-clock time are
    /// passed in by the caller, which draws them from the system.
    pub fn new(
        zone_name: &Vec<u8>,
        cause: ZoneBundleCause,
        bundle_id: u128,
        time_created: UtcTime,
    ) -> (r: ZoneBundleMetadata)
        requires
            time_created.wf(),
        ensures
            r.id.zone_name@ == zone_name@,
            r.id.bundle_id == bundle_id,
            r.time_created == time_created,
            r.version == BUNDLE_METADATA_VERSION,
            r.cause == cause,
            r.wf(),
    {
        ZoneBundleMetadata {
            id: ZoneBundleId { zone_name: zone_name.clone(), bundle_id },
            time_created,
            version: BUNDLE_METADATA_VERSION,
            cause,
        }
    }
}

/// A bundle on disk: its metadata, its path, and its size in bytes.
#[derive(Clone, Debug, PartialEq, Eq)]
pub struct ZoneBundleInfo {
    /// The raw metadata for the bundle.
    pub metadata: ZoneBundleMetadata,
    /// The full path to the bundle, as UTF-8 bytes.
    pub path: Vec<u8>,
    /// The number of bytes consumed on disk by the bundle.
    pub bytes: u64,
}

} // verus!
