//! Semantic-version checking of caboose versions, and the interrogation
//! steps' verdict on them.
//!
//! The interrogation of a root of trust or service processor reads the
//! active caboose and classifies its version string: a version that
//! parses as a semantic version makes the step a success carrying that
//! version, and anything else — no version at all, or one that does not
//! parse — makes the step a warning carrying none.

use vstd::prelude::*;
use crate::engine::StepOutcome;

verus! {

/// Whether the bytes are UTF-8 text that parses as a semantic version.
/// The answer is a function of the bytes alone.
pub uninterp spec fn is_semver(s: Seq<u8>) -> bool;

/// Relies on semver's `Version::parse` (a pure function of its input
/// that returns a result and never panics), applied to the bytes read as
/// UTF-8; bytes that are not UTF-8 parse as no version.
#[verifier::external_body]
pub(crate) fn semver_parses(s: &[u8]) -> (r: bool)
    ensures
        r == is_semver(s@),
{
    match core::str::from_utf8(s) {
        Ok(text) => semver::Version::parse(text).is_ok(),
        Err(_) => false,
    }
}

/// Classify a caboose's reported version, as the interrogation steps do.
///
/// The step succeeds, recording the version, exactly when a version was
/// reported and it parses as a semantic version; otherwise the step
/// warns and records no version.
pub fn classify_caboose_version(version: Option<&Vec<u8>>) -> (r: (StepOutcome, Option<Vec<u8>>))
    ensures
        version matches Some(v) ==> (if is_semver(v@) {
            r.0 == StepOutcome::Success && (r.1 matches Some(u) && u@ == v@)
        } else {
            r.0 == StepOutcome::Warning && r.1 is None
        }),
        version is None ==> r.0 == StepOutcome::Warning && r.1 is None,
{
    match version {
        None => (StepOutcome::Warning, None),
        Some(v) => {
            if semver_parses(v.as_slice()) {
                let c = v.clone();
                proof {
                    assert(c@ =~= v@);
                }
                (StepOutcome::Success, Some(c))
            } else {
                (StepOutcome::Warning, None)
            }
        },
    }
}

} // verus!
