//! Errors of the zone-bundle subsystem.

use vstd::prelude::*;

verus! {

/// Errors related to managing service zone bundles.
///
/// Variants that describe an I/O failure carry the path or command involved
/// as raw bytes; the surrounding process attaches the operating system's own
/// error when it reports one of these.
#[derive(Clone, Debug, PartialEq, Eq)]
pub enum BundleError {
    /// Running a diagnostic command failed.
    Command { cmd: Vec<u8> },
    /// Creating a bundle directory failed.
    CreateDirectory { directory: Vec<u8> },
    /// Opening a bundle archive failed.
    OpenBundleFile { path: Vec<u8> },
    /// Appending data to a bundle archive failed.
    AddBundleData { tarball_path: Vec<u8> },
    /// Reading data back out of a bundle archive failed.
    ReadBundleData { path: Vec<u8> },
    /// Copying an archive between storage roots failed.
    CopyArchive { from: Vec<u8>, to: Vec<u8> },
    /// Reading a directory failed.
    ReadDirectory { directory: Vec<u8> },
    /// Fetching filesystem metadata failed.
    Metadata { path: Vec<u8> },
    /// Rendering bundle metadata failed.
    Serialization,
    /// Parsing bundle metadata failed.
    Deserialization,
    /// No storage root is available for bundles.
    NoStorage,
    /// The storage limit is outside the open-closed range over zero up to
    /// half of the quota.
    InvalidStorageLimit,
    /// The cleanup period is outside its supported range.
    InvalidCleanupPeriod,
    /// A priority order did not name each dimension exactly once.
    InvalidPriorityOrder,
    /// Removing low-priority bundles failed.
    Cleanup,
}

} // verus!
