//! The staged update plan: artifacts indexed by device kind and board.

use vstd::prelude::*;
use crate::bytestr::bytes_eq;
use crate::device::DeviceKind;

verus! {

/// A content-addressing hash of an artifact's data, as raw digest bytes.
#[derive(Clone, Debug, PartialEq, Eq, Hash)]
pub struct ArtifactHash(pub Vec<u8>);

impl ArtifactHash {
    /// Whether two hashes hold the same digest.
    pub fn same(&self, other: &ArtifactHash) -> (r: bool)
        ensures
            r == (self.0@ == other.0@),
    {
        bytes_eq(self.0.as_slice(), other.0.as_slice())
    }
}

/// The identity of one artifact: its kind, its name, and its version, each
/// as UTF-8 bytes.
#[derive(Clone, Debug, PartialEq, Eq, Hash)]
pub struct ArtifactId {
    pub kind: Vec<u8>,
    pub name: Vec<u8>,
    pub version: Vec<u8>,
}

/// The artifacts of an update plan for one device kind: one image for each
/// root-of-trust slot and a map from service-processor board to its image.
#[derive(Clone, Debug, PartialEq, Eq)]
pub struct KindPlan {
    pub rot_a: ArtifactId,
    pub rot_b: ArtifactId,
    /// Map from board name to the matching service-processor artifact.
    pub sp_by_board: Vec<(Vec<u8>, ArtifactId)>,
}

/// An immutable staged update plan.
///
/// The trampoline phase-2 hash is the plan's identity for deduplicating the
/// trampoline uploader.
#[derive(Clone, Debug, PartialEq, Eq)]
pub struct UpdatePlan {
    pub system_version: Vec<u8>,
    pub sled: KindPlan,
    pub switch: KindPlan,
    pub power: KindPlan,
    pub host_phase_1: ArtifactId,
    pub trampoline_phase_1: ArtifactId,
    pub trampoline_phase_2: ArtifactId,
    pub trampoline_phase_2_hash: ArtifactHash,
    pub control_plane_hash: ArtifactHash,
    pub host_phase_2_hash: ArtifactHash,
}

impl UpdatePlan {
    /// The plan's artifacts for one device kind.
    pub fn for_kind(&self, kind: DeviceKind) -> (r: &KindPlan)
        ensures
            kind == DeviceKind::Sled ==> r == &self.sled,
            kind == DeviceKind::Switch ==> r == &self.switch,
            kind == DeviceKind::Power ==> r == &self.power,
    {
        match kind {
            DeviceKind::Sled => &self.sled,
            DeviceKind::Switch => &self.switch,
            DeviceKind::Power => &self.power,
        }
    }
}

/// What a lookup of `board` in the board map denotes: the first entry whose
/// board name matches.
pub open spec fn spec_sp_for_board(entries: Seq<(Vec<u8>, ArtifactId)>, board: Seq<u8>) -> Option<
    ArtifactId,
>
    decreases entries.len(),
{
    if entries.len() == 0 {
        None
    } else if entries[0].0@ == board {
        Some(entries[0].1)
    } else {
        spec_sp_for_board(entries.drop_first(), board)
    }
}

impl KindPlan {
    /// Select the service-processor artifact for a board, or nothing when
    /// the plan has no image for that board.
    pub fn sp_for_board(&self, board: &Vec<u8>) -> (r: Option<&ArtifactId>)
        ensures
            match r {
                Some(a) => spec_sp_for_board(self.sp_by_board@, board@) == Some(*a),
                None => spec_sp_for_board(self.sp_by_board@, board@) is None,
            },
    {
        let mut i: usize = 0;
        proof {
            assert(self.sp_by_board@.skip(0) =~= self.sp_by_board@);
        }
        while i < self.sp_by_board.len()
            invariant
                i <= self.sp_by_board@.len(),
                spec_sp_for_board(self.sp_by_board@, board@) == spec_sp_for_board(
                    self.sp_by_board@.skip(i as int),
                    board@,
                ),
            decreases self.sp_by_board@.len() - i,
        {
            proof {
                assert(self.sp_by_board@.skip(i as int).len() > 0);
                assert(self.sp_by_board@.skip(i as int)[0] == self.sp_by_board@[i as int]);
                assert(self.sp_by_board@.skip(i as int).drop_first() =~= self.sp_by_board@.skip(
                    i as int + 1,
                ));
            }
            if bytes_eq(self.sp_by_board[i].0.as_slice(), board.as_slice()) {
                return Some(&self.sp_by_board[i].1);
            }
            i += 1;
        }
        proof {
            assert(self.sp_by_board@.skip(i as int).len() == 0);
        }
        None
    }
}

} // verus!
