//! The singleton trampoline-phase-2 uploader.
//!
//! Each tracker owns at most one upload task. Ensuring the uploader for a
//! plan reuses a task already uploading the same image, cancels and
//! replaces one uploading a different image, and spawns one otherwise, so
//! any number of sled updates against one plan share a single upload.

use vstd::prelude::*;
use crate::plan::ArtifactHash;

verus! {

/// What the surrounding process must do after ensuring the uploader.
#[derive(Clone, Copy, Debug, PartialEq, Eq, Structural)]
pub enum UploaderAction {
    /// The running upload task already serves this plan's image.
    Reuse,
    /// No upload task exists: spawn one for this plan's image.
    Spawn,
    /// A task serves a different image: cancel it, spawn a fresh one.
    CancelAndSpawn,
}

/// The status a running upload task publishes: the image it uploads, and
/// the image identifier the gateway assigned once the upload succeeded.
#[derive(Clone, Debug, PartialEq, Eq)]
pub struct UploadStatus {
    pub hash: ArtifactHash,
    pub uploaded_image_id: Option<Vec<u8>>,
}

/// The tracker's slot for the singleton upload task.
#[derive(Clone, Debug, PartialEq, Eq)]
pub struct TrampolineUploader {
    /// The status of the current upload task, if one was spawned.
    pub current: Option<UploadStatus>,
}

impl TrampolineUploader {
    /// The digest of the image the current task uploads, if a task exists.
    pub open spec fn serving(self) -> Option<Seq<u8>> {
        match self.current {
            None => None,
            Some(st) => Some(st.hash.0@),
        }
    }
}

/// The action that ensuring the uploader for a plan with trampoline digest
/// `h` takes, given the digest the current task serves.
pub open spec fn spec_ensure_action(cur: Option<Seq<u8>>, h: Seq<u8>) -> UploaderAction {
    match cur {
        None => UploaderAction::Spawn,
        Some(v) => if v == h {
            UploaderAction::Reuse
        } else {
            UploaderAction::CancelAndSpawn
        },
    }
}

/// Whether an action spawns a new upload task.
pub open spec fn spawns(a: UploaderAction) -> bool {
    a != UploaderAction::Reuse
}

/// How many upload tasks a run of ensure calls for the digests `hs`
/// spawns, starting from a task serving `cur`.
pub open spec fn spec_spawn_count(cur: Option<Seq<u8>>, hs: Seq<Seq<u8>>) -> int
    decreases hs.len(),
{
    if hs.len() == 0 {
        0
    } else {
        let n: int = if spawns(spec_ensure_action(cur, hs[0])) {
            1
        } else {
            0
        };
        n + spec_spawn_count(Some(hs[0]), hs.drop_first())
    }
}

impl TrampolineUploader {
    /// A fresh tracker has no upload task.
    pub fn new() -> (r: TrampolineUploader)
        ensures
            r.current is None,
            r.serving() is None,
    {
        TrampolineUploader { current: None }
    }

    /// Ensure an upload task serves the plan whose trampoline image hashes
    /// to `h`, and say what the surrounding process must do: reuse the
    /// running task, spawn a first one, or cancel a stale one and spawn a
    /// replacement.
    pub fn ensure_for_plan(&mut self, h: &ArtifactHash) -> (r: UploaderAction)
        ensures
            r == spec_ensure_action(old(self).serving(), h.0@),
            final(self).serving() == Some(h.0@),
            r == UploaderAction::Reuse ==> *final(self) == *old(self),
            r != UploaderAction::Reuse ==> (final(self).current->0).uploaded_image_id
                is None,
    {
        let action = match &self.current {
            None => UploaderAction::Spawn,
            Some(st) => {
                if st.hash.same(h) {
                    UploaderAction::Reuse
                } else {
                    UploaderAction::CancelAndSpawn
                }
            },
        };
        if !matches!(action, UploaderAction::Reuse) {
            self.current = Some(
                UploadStatus { hash: ArtifactHash(h.0.clone()), uploaded_image_id: None },
            );
        }
        action
    }

    /// Record that the upload task published the gateway-assigned image
    /// identifier.
    pub fn record_uploaded(&mut self, image_id: Vec<u8>)
        requires
            old(self).current is Some,
        ensures
            final(self).serving() == old(self).serving(),
            (final(self).current->0).uploaded_image_id == Some(image_id),
    {
        let hash = match &self.current {
            Some(st) => ArtifactHash(st.hash.0.clone()),
            None => ArtifactHash(Vec::new()),
        };
        self.current = Some(UploadStatus { hash, uploaded_image_id: Some(image_id) });
    }
}

/// Ensuring the uploader again for the image it already serves reuses the
/// running task, untouched: no new task is spawned.
pub proof fn lemma_ensure_idempotent(cur: Option<Seq<u8>>, h: Seq<u8>)
    requires
        cur == Some(h),
    ensures
        spec_ensure_action(cur, h) == UploaderAction::Reuse,
{
}

/// Starting any number of sled updates against one plan spawns exactly one
/// upload task: from a tracker with no uploader, a run of ensure calls
/// that all carry the plan's digest spawns on the first call and reuses
/// thereafter.
pub proof fn lemma_uploader_dedup(hs: Seq<Seq<u8>>, h: Seq<u8>)
    requires
        hs.len() > 0,
        forall|i: int| 0 <= i < hs.len() ==> #[trigger] hs[i] == h,
    ensures
        spec_spawn_count(None, hs) == 1,
{
    assert(spawns(spec_ensure_action(None, hs[0])));
    assert(hs[0] == h);
    lemma_same_hash_no_spawns(hs.drop_first(), h);
}

/// Replacing the plan with one whose trampoline image differs spawns at
/// most one additional task: from an uploader serving some image, a run of
/// ensure calls that all carry one digest spawns at most once.
pub proof fn lemma_uploader_replacement(cur: Seq<u8>, hs: Seq<Seq<u8>>, h: Seq<u8>)
    requires
        forall|i: int| 0 <= i < hs.len() ==> #[trigger] hs[i] == h,
    ensures
        spec_spawn_count(Some(cur), hs) <= 1,
{
    if hs.len() > 0 {
        assert(hs[0] == h);
        lemma_same_hash_no_spawns(hs.drop_first(), h);
    }
}

/// From an uploader already serving `h`, ensure calls that all carry `h`
/// spawn nothing.
proof fn lemma_same_hash_no_spawns(hs: Seq<Seq<u8>>, h: Seq<u8>)
    requires
        forall|i: int| 0 <= i < hs.len() ==> #[trigger] hs[i] == h,
    ensures
        spec_spawn_count(Some(h), hs) == 0,
    decreases hs.len(),
{
    if hs.len() > 0 {
        assert(hs[0] == h);
        assert(spec_ensure_action(Some(h), hs[0]) == UploaderAction::Reuse);
        assert(forall|i: int|
            0 <= i < hs.drop_first().len() ==> #[trigger] hs.drop_first()[i] == h) by {
            assert(forall|i: int|
                0 <= i < hs.drop_first().len() ==> hs.drop_first()[i] == hs[i + 1]);
        }
        lemma_same_hash_no_spawns(hs.drop_first(), h);
    }
}

} // verus!
