//! The bundle metadata document: its exact rendering, and a parser that
//! accepts exactly what renders back to the parsed record.
//!
//! The document names the creation time, the schema version and the
//! cause, then a table with the zone name and the bundle identifier. The
//! renderer is specified byte for byte; the parser re-renders what it
//! read and succeeds only when the bytes agree, so everything it accepts
//! is the rendering of the record it returns.

use vstd::prelude::*;
use crate::bytestr::{
    all_digits, bytes_eq, dec_fixed, dec_of, dec_value, lit_at, parse_dec_run,
    parse_fixed_digits, push_bytes, push_dec_fixed, push_dec_u64,
};
use crate::errors::BundleError;
use crate::hexid::{parse_uuid, render_uuid, spec_uuid_str};
use crate::meta::{ZoneBundleCause, ZoneBundleId, ZoneBundleMetadata};
use crate::timespan::UtcTime;

verus! {

/// The bytes of the text `time_created = "`.
pub open spec fn lit_time_created() -> Seq<u8> {
    seq![0x74u8, 0x69u8, 0x6du8, 0x65u8, 0x5fu8, 0x63u8, 0x72u8, 0x65u8, 0x61u8, 0x74u8, 0x65u8, 0x64u8, 0x20u8, 0x3du8, 0x20u8, 0x22u8]
}

/// Executable copy of the same literal.
pub fn lit_time_created_vec() -> (r: Vec<u8>)
    ensures
        r@ == lit_time_created(),
{
    let mut v: Vec<u8> = Vec::new();
    v.push(0x74);
    v.push(0x69);
    v.push(0x6d);
    v.push(0x65);
    v.push(0x5f);
    v.push(0x63);
    v.push(0x72);
    v.push(0x65);
    v.push(0x61);
    v.push(0x74);
    v.push(0x65);
    v.push(0x64);
    v.push(0x20);
    v.push(0x3d);
    v.push(0x20);
    v.push(0x22);
    proof {
        assert(v@ =~= lit_time_created());
    }
    v
}

/// The bytes of the text `"\\nversion = `.
pub open spec fn lit_version() -> Seq<u8> {
    seq![0x22u8, 0x0au8, 0x76u8, 0x65u8, 0x72u8, 0x73u8, 0x69u8, 0x6fu8, 0x6eu8, 0x20u8, 0x3du8, 0x20u8]
}

/// Executable copy of the same literal.
pub fn lit_version_vec() -> (r: Vec<u8>)
    ensures
        r@ == lit_version(),
{
    let mut v: Vec<u8> = Vec::new();
    v.push(0x22);
    v.push(0x0a);
    v.push(0x76);
    v.push(0x65);
    v.push(0x72);
    v.push(0x73);
    v.push(0x69);
    v.push(0x6f);
    v.push(0x6e);
    v.push(0x20);
    v.push(0x3d);
    v.push(0x20);
    proof {
        assert(v@ =~= lit_version());
    }
    v
}

/// The bytes of the text `\\ncause = "`.
pub open spec fn lit_cause() -> Seq<u8> {
    seq![0x0au8, 0x63u8, 0x61u8, 0x75u8, 0x73u8, 0x65u8, 0x20u8, 0x3du8, 0x20u8, 0x22u8]
}

/// Executable copy of the same literal.
pub fn lit_cause_vec() -> (r: Vec<u8>)
    ensures
        r@ == lit_cause(),
{
    let mut v: Vec<u8> = Vec::new();
    v.push(0x0a);
    v.push(0x63);
    v.push(0x61);
    v.push(0x75);
    v.push(0x73);
    v.push(0x65);
    v.push(0x20);
    v.push(0x3d);
    v.push(0x20);
    v.push(0x22);
    proof {
        assert(v@ =~= lit_cause());
    }
    v
}

/// The bytes of the text `"\\n\\n[id]\\nzone_name = "`.
pub open spec fn lit_id_table() -> Seq<u8> {
    seq![0x22u8, 0x0au8, 0x0au8, 0x5bu8, 0x69u8, 0x64u8, 0x5du8, 0x0au8, 0x7au8, 0x6fu8, 0x6eu8, 0x65u8, 0x5fu8, 0x6eu8, 0x61u8, 0x6du8, 0x65u8, 0x20u8, 0x3du8, 0x20u8, 0x22u8]
}

/// Executable copy of the same literal.
pub fn lit_id_table_vec() -> (r: Vec<u8>)
    ensures
        r@ == lit_id_table(),
{
    let mut v: Vec<u8> = Vec::new();
    v.push(0x22);
    v.push(0x0a);
    v.push(0x0a);
    v.push(0x5b);
    v.push(0x69);
    v.push(0x64);
    v.push(0x5d);
    v.push(0x0a);
    v.push(0x7a);
    v.push(0x6f);
    v.push(0x6e);
    v.push(0x65);
    v.push(0x5f);
    v.push(0x6e);
    v.push(0x61);
    v.push(0x6d);
    v.push(0x65);
    v.push(0x20);
    v.push(0x3d);
    v.push(0x20);
    v.push(0x22);
    proof {
        assert(v@ =~= lit_id_table());
    }
    v
}

/// The bytes of the text `"\\nbundle_id = "`.
pub open spec fn lit_bundle_id() -> Seq<u8> {
    seq![0x22u8, 0x0au8, 0x62u8, 0x75u8, 0x6eu8, 0x64u8, 0x6cu8, 0x65u8, 0x5fu8, 0x69u8, 0x64u8, 0x20u8, 0x3du8, 0x20u8, 0x22u8]
}

/// Executable copy of the same literal.
pub fn lit_bundle_id_vec() -> (r: Vec<u8>)
    ensures
        r@ == lit_bundle_id(),
{
    let mut v: Vec<u8> = Vec::new();
    v.push(0x22);
    v.push(0x0a);
    v.push(0x62);
    v.push(0x75);
    v.push(0x6e);
    v.push(0x64);
    v.push(0x6c);
    v.push(0x65);
    v.push(0x5f);
    v.push(0x69);
    v.push(0x64);
    v.push(0x20);
    v.push(0x3d);
    v.push(0x20);
    v.push(0x22);
    proof {
        assert(v@ =~= lit_bundle_id());
    }
    v
}

/// The bytes of the text `"\\n`.
pub open spec fn lit_end() -> Seq<u8> {
    seq![0x22u8, 0x0au8]
}

/// Executable copy of the same literal.
pub fn lit_end_vec() -> (r: Vec<u8>)
    ensures
        r@ == lit_end(),
{
    let mut v: Vec<u8> = Vec::new();
    v.push(0x22);
    v.push(0x0a);
    proof {
        assert(v@ =~= lit_end());
    }
    v
}

/// The bytes of the text `other`.
pub open spec fn lit_other() -> Seq<u8> {
    seq![0x6fu8, 0x74u8, 0x68u8, 0x65u8, 0x72u8]
}

/// Executable copy of the same literal.
pub fn lit_other_vec() -> (r: Vec<u8>)
    ensures
        r@ == lit_other(),
{
    let mut v: Vec<u8> = Vec::new();
    v.push(0x6f);
    v.push(0x74);
    v.push(0x68);
    v.push(0x65);
    v.push(0x72);
    proof {
        assert(v@ =~= lit_other());
    }
    v
}

/// The bytes of the text `unexpected_zone`.
pub open spec fn lit_unexpected_zone() -> Seq<u8> {
    seq![0x75u8, 0x6eu8, 0x65u8, 0x78u8, 0x70u8, 0x65u8, 0x63u8, 0x74u8, 0x65u8, 0x64u8, 0x5fu8, 0x7au8, 0x6fu8, 0x6eu8, 0x65u8]
}

/// Executable copy of the same literal.
pub fn lit_unexpected_zone_vec() -> (r: Vec<u8>)
    ensures
        r@ == lit_unexpected_zone(),
{
    let mut v: Vec<u8> = Vec::new();
    v.push(0x75);
    v.push(0x6e);
    v.push(0x65);
    v.push(0x78);
    v.push(0x70);
    v.push(0x65);
    v.push(0x63);
    v.push(0x74);
    v.push(0x65);
    v.push(0x64);
    v.push(0x5f);
    v.push(0x7a);
    v.push(0x6f);
    v.push(0x6e);
    v.push(0x65);
    proof {
        assert(v@ =~= lit_unexpected_zone());
    }
    v
}

/// The bytes of the text `terminated_instance`.
pub open spec fn lit_terminated_instance() -> Seq<u8> {
    seq![0x74u8, 0x65u8, 0x72u8, 0x6du8, 0x69u8, 0x6eu8, 0x61u8, 0x74u8, 0x65u8, 0x64u8, 0x5fu8, 0x69u8, 0x6eu8, 0x73u8, 0x74u8, 0x61u8, 0x6eu8, 0x63u8, 0x65u8]
}

/// Executable copy of the same literal.
pub fn lit_terminated_instance_vec() -> (r: Vec<u8>)
    ensures
        r@ == lit_terminated_instance(),
{
    let mut v: Vec<u8> = Vec::new();
    v.push(0x74);
    v.push(0x65);
    v.push(0x72);
    v.push(0x6d);
    v.push(0x69);
    v.push(0x6e);
    v.push(0x61);
    v.push(0x74);
    v.push(0x65);
    v.push(0x64);
    v.push(0x5f);
    v.push(0x69);
    v.push(0x6e);
    v.push(0x73);
    v.push(0x74);
    v.push(0x61);
    v.push(0x6e);
    v.push(0x63);
    v.push(0x65);
    proof {
        assert(v@ =~= lit_terminated_instance());
    }
    v
}

/// The bytes of the text `explicit_request`.
pub open spec fn lit_explicit_request() -> Seq<u8> {
    seq![0x65u8, 0x78u8, 0x70u8, 0x6cu8, 0x69u8, 0x63u8, 0x69u8, 0x74u8, 0x5fu8, 0x72u8, 0x65u8, 0x71u8, 0x75u8, 0x65u8, 0x73u8, 0x74u8]
}

/// Executable copy of the same literal.
pub fn lit_explicit_request_vec() -> (r: Vec<u8>)
    ensures
        r@ == lit_explicit_request(),
{
    let mut v: Vec<u8> = Vec::new();
    v.push(0x65);
    v.push(0x78);
    v.push(0x70);
    v.push(0x6c);
    v.push(0x69);
    v.push(0x63);
    v.push(0x69);
    v.push(0x74);
    v.push(0x5f);
    v.push(0x72);
    v.push(0x65);
    v.push(0x71);
    v.push(0x75);
    v.push(0x65);
    v.push(0x73);
    v.push(0x74);
    proof {
        assert(v@ =~= lit_explicit_request());
    }
    v
}


/// The escaped form of one byte: quotes and backslashes carry a leading
/// backslash, anything else stands as itself.
pub open spec fn escape_byte(b: u8) -> Seq<u8> {
    if b == 0x22 || b == 0x5c {
        seq![0x5cu8, b]
    } else {
        seq![b]
    }
}

/// The escaped form of a name.
pub open spec fn spec_escape(z: Seq<u8>) -> Seq<u8>
    decreases z.len(),
{
    if z.len() == 0 {
        Seq::empty()
    } else {
        spec_escape(z.drop_last()) + escape_byte(z.last())
    }
}

/// A name the document can carry: no control bytes.
pub open spec fn plain_name(z: Seq<u8>) -> bool {
    forall|i: int| 0 <= i < z.len() ==> #[trigger] z[i] >= 0x20
}

/// The subsecond part of a rendered time: empty for a whole second, else
/// a dot and the fewest of three, six or nine digits that lose nothing.
pub open spec fn spec_frac(nanos: u32) -> Seq<u8> {
    if nanos == 0 {
        Seq::empty()
    } else if nanos % 1_000_000 == 0 {
        seq![0x2eu8] + dec_fixed(nanos as int / 1_000_000, 3)
    } else if nanos % 1000 == 0 {
        seq![0x2eu8] + dec_fixed(nanos as int / 1000, 6)
    } else {
        seq![0x2eu8] + dec_fixed(nanos as int, 9)
    }
}

/// The rendered form of an instant: date, a `T`, the time of day, the
/// subsecond part, and a terminal `Z`.
pub open spec fn spec_rfc3339(t: UtcTime) -> Seq<u8> {
    dec_fixed(t.year as int, 4) + seq![0x2du8] + dec_fixed(t.month as int, 2) + seq![0x2du8]
        + dec_fixed(t.day as int, 2) + seq![0x54u8] + dec_fixed(t.hour as int, 2) + seq![0x3au8]
        + dec_fixed(t.minute as int, 2) + seq![0x3au8] + dec_fixed(t.second as int, 2)
        + spec_frac(t.nanos) + seq![0x5au8]
}

/// The rendered name of a cause.
pub open spec fn spec_cause_name(c: ZoneBundleCause) -> Seq<u8> {
    match c {
        ZoneBundleCause::Other => lit_other(),
        ZoneBundleCause::UnexpectedZone => lit_unexpected_zone(),
        ZoneBundleCause::TerminatedInstance => lit_terminated_instance(),
        ZoneBundleCause::ExplicitRequest => lit_explicit_request(),
    }
}

/// The whole rendered metadata document.
pub open spec fn spec_render_metadata(
    zone_name: Seq<u8>,
    bundle_id: u128,
    t: UtcTime,
    version: u8,
    cause: ZoneBundleCause,
) -> Seq<u8> {
    lit_time_created() + spec_rfc3339(t) + lit_version() + dec_of(version as int) + lit_cause()
        + spec_cause_name(cause) + lit_id_table() + spec_escape(zone_name) + lit_bundle_id()
        + spec_uuid_str(bundle_id) + lit_end()
}

/// The document `md` renders to.
pub open spec fn spec_metadata_doc(md: ZoneBundleMetadata) -> Seq<u8> {
    spec_render_metadata(
        md.id.zone_name@,
        md.id.bundle_id,
        md.time_created,
        md.version,
        md.cause,
    )
}

/// Append the rendered form of `t` onto `out`.
fn push_rfc3339(t: &UtcTime, out: &mut Vec<u8>)
    requires
        t.wf(),
    ensures
        final(out)@ == old(out)@ + spec_rfc3339(*t),
{
    push_dec_fixed(t.year as u64, 4, out);
    out.push(0x2d);
    push_dec_fixed(t.month as u64, 2, out);
    out.push(0x2d);
    push_dec_fixed(t.day as u64, 2, out);
    out.push(0x54);
    push_dec_fixed(t.hour as u64, 2, out);
    out.push(0x3a);
    push_dec_fixed(t.minute as u64, 2, out);
    out.push(0x3a);
    push_dec_fixed(t.second as u64, 2, out);
    if t.nanos != 0 {
        out.push(0x2e);
        if t.nanos % 1_000_000 == 0 {
            push_dec_fixed((t.nanos / 1_000_000) as u64, 3, out);
        } else if t.nanos % 1000 == 0 {
            push_dec_fixed((t.nanos / 1000) as u64, 6, out);
        } else {
            push_dec_fixed(t.nanos as u64, 9, out);
        }
    }
    out.push(0x5a);
    proof {
        assert(final(out)@ =~= old(out)@ + spec_rfc3339(*t));
    }
}

/// The escaped form of a name, or nothing when the name holds a control
/// byte.
fn escape_name(z: &[u8]) -> (r: Option<Vec<u8>>)
    ensures
        match r {
            Some(out) => {
                &&& plain_name(z@)
                &&& out@ == spec_escape(z@)
            },
            None => !plain_name(z@),
        },
{
    let mut out: Vec<u8> = Vec::new();
    let mut i: usize = 0;
    proof {
        assert(out@ =~= spec_escape(z@.take(0)));
    }
    while i < z.len()
        invariant
            i <= z@.len(),
            plain_name(z@.take(i as int)),
            out@ == spec_escape(z@.take(i as int)),
        decreases z@.len() - i,
    {
        let b = z[i];
        proof {
            let t1 = z@.take(i as int + 1);
            assert(t1.drop_last() =~= z@.take(i as int));
            assert(t1.last() == b);
            assert(forall|w: int| 0 <= w < i ==> t1[w] == z@.take(i as int)[w]);
        }
        if b < 0x20 {
            proof {
                assert(z@[i as int] < 0x20);
            }
            return None;
        }
        if b == 0x22 || b == 0x5c {
            out.push(0x5c);
            out.push(b);
        } else {
            out.push(b);
        }
        proof {
            assert(out@ =~= spec_escape(z@.take(i as int + 1)));
        }
        i += 1;
    }
    proof {
        assert(z@.take(i as int) =~= z@);
    }
    Some(out)
}

/// Render a metadata record as its document.
///
/// Rendering fails, with a serialization error, exactly when the zone
/// name holds a control byte.
pub fn render_metadata(md: &ZoneBundleMetadata) -> (r: Result<Vec<u8>, BundleError>)
    requires
        md.time_created.wf(),
    ensures
        match r {
            Ok(out) => {
                &&& plain_name(md.id.zone_name@)
                &&& out@ == spec_metadata_doc(*md)
            },
            Err(e) => {
                &&& e == BundleError::Serialization
                &&& !plain_name(md.id.zone_name@)
            },
        },
{
    let mut out: Vec<u8> = Vec::new();
    let l1 = lit_time_created_vec();
    push_bytes(&mut out, l1.as_slice());
    push_rfc3339(&md.time_created, &mut out);
    let l2 = lit_version_vec();
    push_bytes(&mut out, l2.as_slice());
    push_dec_u64(md.version as u64, &mut out);
    let l3 = lit_cause_vec();
    push_bytes(&mut out, l3.as_slice());
    let cname = cause_name_vec(md.cause);
    push_bytes(&mut out, cname.as_slice());
    let l4 = lit_id_table_vec();
    push_bytes(&mut out, l4.as_slice());
    let escaped = match escape_name(md.id.zone_name.as_slice()) {
        Some(v) => v,
        None => { return Err(BundleError::Serialization); },
    };
    push_bytes(&mut out, escaped.as_slice());
    let l5 = lit_bundle_id_vec();
    push_bytes(&mut out, l5.as_slice());
    let uu = render_uuid(md.id.bundle_id);
    push_bytes(&mut out, uu.as_slice());
    let l6 = lit_end_vec();
    push_bytes(&mut out, l6.as_slice());
    proof {
        assert(out@ =~= spec_metadata_doc(*md));
    }
    Ok(out)
}

/// The rendered name of a cause, executable form.
fn cause_name_vec(c: ZoneBundleCause) -> (r: Vec<u8>)
    ensures
        r@ == spec_cause_name(c),
{
    match c {
        ZoneBundleCause::Other => lit_other_vec(),
        ZoneBundleCause::UnexpectedZone => lit_unexpected_zone_vec(),
        ZoneBundleCause::TerminatedInstance => lit_terminated_instance_vec(),
        ZoneBundleCause::ExplicitRequest => lit_explicit_request_vec(),
    }
}

/// Parse a metadata document.
///
/// Everything accepted is exact: a returned record renders, byte for
/// byte, back to the parsed input, because the parser re-renders its
/// candidate and compares before accepting. And every document the
/// renderer produces for a well-formed record with a simple zone name is
/// accepted, yielding that record's values back.
pub fn parse_metadata(s: &[u8]) -> (r: Option<ZoneBundleMetadata>)
    ensures
        r matches Some(md) ==> {
            &&& md.time_created.wf()
            &&& plain_name(md.id.zone_name@)
            &&& s@ == spec_metadata_doc(md)
        },
        forall|md: ZoneBundleMetadata|
            md.wf() && simple_name(md.id.zone_name@) && s@ == #[trigger] spec_metadata_doc(md)
                ==> (r matches Some(m) && m.id.zone_name@ == md.id.zone_name@
                && m.id.bundle_id == md.id.bundle_id && m.time_created == md.time_created
                && m.version == md.version && m.cause == md.cause),
{
    proof {
        assert forall|md: ZoneBundleMetadata|
            md.wf() && simple_name(md.id.zone_name@) && s@ == #[trigger] spec_metadata_doc(
            md,
        ) implies canonical_for(s@, md) by {
            lemma_canonical_intro(s@, md);
        }
    }
    let candidate = parse_metadata_loose(s);
    match candidate {
        None => None,
        Some(md) => {
            if !md.time_created.check_wf() {
                proof {
                    assert forall|m0: ZoneBundleMetadata|
                        #[trigger] canonical_for(s@, m0) implies false by {
                        lemma_canonical_wf(s@, m0);
                    }
                }
                return None;
            }
            match render_metadata(&md) {
                Err(_) => {
                    proof {
                        assert forall|m0: ZoneBundleMetadata|
                            #[trigger] canonical_for(s@, m0) implies false by {
                            lemma_canonical_wf(s@, m0);
                        }
                    }
                    None
                },
                Ok(rendered) => {
                    proof {
                        assert forall|m0: ZoneBundleMetadata|
                            #[trigger] canonical_for(s@, m0) implies rendered@ == s@ by {
                            lemma_canonical_wf(s@, m0);
                            lemma_canonical_doc(s@, m0);
                            assert(spec_metadata_doc(md) == spec_metadata_doc(m0));
                        }
                    }
                    if bytes_eq(rendered.as_slice(), s) {
                        Some(md)
                    } else {
                        None
                    }
                },
            }
        },
    }
}

/// A canonical document is its record's rendering.
pub proof fn lemma_canonical_doc(s: Seq<u8>, md: ZoneBundleMetadata)
    requires
        canonical_for(s, md),
    ensures
        s == spec_metadata_doc(md),
{
    reveal(canonical_for);
}

/// The facts the version-and-cause reader needs, at its own offsets.
#[verifier::rlimit(100)]
#[verifier::spinoff_prover]
proof fn lemma_vc_points(s: Seq<u8>, md: ZoneBundleMetadata, at: int)
    requires
        canonical_for(s, md),
        at == 16 + spec_rfc_len(md.time_created),
    ensures
        at + 23 < s.len(),
        s.subrange(at, at + 12) == lit_version(),
        all_digits(s.subrange(at + 12, at + 13)),
        dec_value(s.subrange(at + 12, at + 13)) == 0,
        !crate::bytestr::is_digit(s[at + 13]),
        s.subrange(at + 13, at + 23) == lit_cause(),
        cause_name_at(s, at + 23, md.cause),
        md.version == 0,
{
    reveal(canonical_for);
    lemma_canonical_cause_facts(s, md);
    lemma_version_run(s, md);
    let rl = spec_rfc_len(md.time_created);
    assert(s.subrange(at, at + 12) == s.subrange(16 + rl, 28 + rl));
    assert(s.subrange(at + 12, at + 13) == s.subrange(28 + rl, 29 + rl));
    assert(s.subrange(at + 13, at + 23) == s.subrange(29 + rl, 39 + rl));
}

/// The facts the zone-name reader needs, at its own offsets.
#[verifier::rlimit(100)]
#[verifier::spinoff_prover]
proof fn lemma_zone_points(s: Seq<u8>, md: ZoneBundleMetadata, at: int)
    requires
        canonical_for(s, md),
        at == 39 + spec_rfc_len(md.time_created) + spec_cause_len(md.cause),
    ensures
        at + 21 + md.id.zone_name@.len() < s.len(),
        s.subrange(at, at + 21) == lit_id_table(),
        forall|q: int|
            0 <= q < md.id.zone_name@.len() ==> s[at + 21 + q] == #[trigger] md.id.zone_name@[q],
        s[at + 21 + md.id.zone_name@.len()] == 0x22u8,
{
    reveal(canonical_for);
    lemma_canonical_zone_facts(s, md);
}

/// Read the timestamp of a document: the date, the time of day, the
/// optional subseconds, and the terminal letter.
///
/// On a canonical document the record's own calendar fields come back,
/// with the position just past the timestamp.
#[verifier::rlimit(100)]
#[verifier::spinoff_prover]
fn parse_timestamp(s: &[u8]) -> (r: Option<(u64, u64, u64, u64, u64, u64, u64, usize)>)
    ensures
        r matches Some(v) ==> v.7 <= s@.len(),
        forall|md: ZoneBundleMetadata|
            #[trigger] canonical_for(s@, md) ==> (r matches Some(v) && v.0
                == md.time_created.year && v.1 == md.time_created.month && v.2
                == md.time_created.day && v.3 == md.time_created.hour && v.4
                == md.time_created.minute && v.5 == md.time_created.second && v.6
                == md.time_created.nanos && v.7 == 16 + spec_rfc_len(md.time_created)),
{
    let n = s.len();
    let i: usize = 16;
    // Date and time of day.
    if n < i || n - i < 20 {
        proof {
            assert forall|md: ZoneBundleMetadata|
                #[trigger] canonical_for(s@, md) implies false by {
                lemma_canonical_date_facts(s@, md);
            }
        }
        return None;
    }
    proof {
        crate::bytestr::lemma_pow10_small();
        assert forall|md: ZoneBundleMetadata|
            #[trigger] canonical_for(s@, md) implies all_digits(s@.subrange(16, 20))
            && dec_value(s@.subrange(16, 20)) == md.time_created.year && all_digits(
            s@.subrange(21, 23),
        ) && dec_value(s@.subrange(21, 23)) == md.time_created.month && all_digits(
            s@.subrange(24, 26),
        ) && dec_value(s@.subrange(24, 26)) == md.time_created.day && all_digits(
            s@.subrange(27, 29),
        ) && dec_value(s@.subrange(27, 29)) == md.time_created.hour && all_digits(
            s@.subrange(30, 32),
        ) && dec_value(s@.subrange(30, 32)) == md.time_created.minute && all_digits(
            s@.subrange(33, 35),
        ) && dec_value(s@.subrange(33, 35)) == md.time_created.second && s@[20] == 0x2du8
            && s@[23] == 0x2du8 && s@[26] == 0x54u8 && s@[29] == 0x3au8 && s@[32]
            == 0x3au8 by {
            lemma_canonical_wf(s@, md);
            lemma_canonical_date_facts(s@, md);
            crate::bytestr::lemma_dec_fixed_value(md.time_created.year as int, 4);
            crate::bytestr::lemma_dec_fixed_value(md.time_created.month as int, 2);
            crate::bytestr::lemma_dec_fixed_value(md.time_created.day as int, 2);
            crate::bytestr::lemma_dec_fixed_value(md.time_created.hour as int, 2);
            crate::bytestr::lemma_dec_fixed_value(md.time_created.minute as int, 2);
            crate::bytestr::lemma_dec_fixed_value(md.time_created.second as int, 2);
        }
    }
    let (year, i2) = match parse_fixed_digits(s, i, 4) {
        Some(v) => v,
        None => { return None; },
    };
    let i = i2;
    if s[i] != 0x2d {
        return None;
    }
    let (month, i2) = match parse_fixed_digits(s, i + 1, 2) {
        Some(v) => v,
        None => { return None; },
    };
    let i = i2;
    if s[i] != 0x2d {
        return None;
    }
    let (day, i2) = match parse_fixed_digits(s, i + 1, 2) {
        Some(v) => v,
        None => { return None; },
    };
    let i = i2;
    if s[i] != 0x54 {
        return None;
    }
    let (hour, i2) = match parse_fixed_digits(s, i + 1, 2) {
        Some(v) => v,
        None => { return None; },
    };
    let i = i2;
    if s[i] != 0x3a {
        return None;
    }
    let (minute, i2) = match parse_fixed_digits(s, i + 1, 2) {
        Some(v) => v,
        None => { return None; },
    };
    let i = i2;
    if s[i] != 0x3a {
        return None;
    }
    let (second, i2) = match parse_fixed_digits(s, i + 1, 2) {
        Some(v) => v,
        None => { return None; },
    };
    // The subsecond part, in one of its three canonical widths.
    let mut i = i2;
    let mut nanos: u64 = 0;
    if i < n && s[i] == 0x2e {
        proof {
            assert forall|md: ZoneBundleMetadata|
                #[trigger] canonical_for(s@, md) implies md.time_created.nanos != 0 by {
                lemma_canonical_wf(s@, md);
                lemma_canonical_frac_facts(s@, md);
            }
        }
        let run = parse_dec_run(s, i + 1);
        proof {
            assert forall|md: ZoneBundleMetadata|
                #[trigger] canonical_for(s@, md) implies (run matches Some(v) && v.1 == 36
                + spec_frac_width(md.time_created.nanos) && v.0 == spec_frac_value(
                md.time_created.nanos,
            )) by {
                lemma_canonical_wf(s@, md);
                lemma_frac_run(s@, md);
                if run is None {
                    assert(false);
                } else {
                    let (v0, j0) = run->0;
                    lemma_frac_run_unique(s@, md, j0 as int, v0 as int);
                }
            }
        }
        let (frac, j) = match run {
            Some(v) => v,
            None => {
                return None;
            },
        };
        let width = j - (i + 1);
        if width == 3 && frac <= 999 {
            nanos = frac * 1_000_000;
        } else if width == 6 && frac <= 999_999 {
            nanos = frac * 1000;
        } else if width == 9 && frac <= 999_999_999 {
            nanos = frac;
        } else {
            proof {
                assert forall|md: ZoneBundleMetadata|
                    #[trigger] canonical_for(s@, md) implies false by {
                    lemma_canonical_wf(s@, md);
                    lemma_frac_cases(md.time_created.nanos);
                }
            }
            return None;
        }
        proof {
            assert forall|md: ZoneBundleMetadata|
                #[trigger] canonical_for(s@, md) implies nanos == md.time_created.nanos by {
                lemma_canonical_wf(s@, md);
                lemma_frac_cases(md.time_created.nanos);
            }
        }
        i = j;
        proof {
            assert forall|md: ZoneBundleMetadata|
                #[trigger] canonical_for(s@, md) implies (i < n && s@[i as int] == 0x5au8 && i
                + 1 == 16 + spec_rfc_len(md.time_created)) by {
                lemma_canonical_wf(s@, md);
                lemma_frac_run(s@, md);
            }
        }
    } else {
        proof {
            assert forall|md: ZoneBundleMetadata|
                #[trigger] canonical_for(s@, md) implies (md.time_created.nanos == 0 && nanos
                == md.time_created.nanos && i < n && s@[i as int] == 0x5au8 && i + 1 == 16
                + spec_rfc_len(md.time_created)) by {
                lemma_canonical_wf(s@, md);
                lemma_canonical_date_facts(s@, md);
                lemma_canonical_frac_facts(s@, md);
            }
        }
    }
    if i >= n || s[i] != 0x5a {
        return None;
    }
    let i = i + 1;
    Some((year, month, day, hour, minute, second, nanos, i))
}

/// Read the version and cause lines of a document.
///
/// On a canonical document the single zero digit and the record's cause
/// come back, with the position just past the cause name.
#[verifier::rlimit(100)]
#[verifier::spinoff_prover]
fn parse_version_cause(s: &[u8], at: usize) -> (r: Option<(u64, ZoneBundleCause, usize)>)
    requires
        at <= s@.len(),
    ensures
        r matches Some(v) ==> v.2 <= s@.len(),
        forall|md: ZoneBundleMetadata|
            #[trigger] canonical_for(s@, md) && at == 16 + spec_rfc_len(md.time_created)
                ==> (r matches Some(v) && v.0 == md.version && v.1 == md.cause && v.2 == 39
                + spec_rfc_len(md.time_created) + spec_cause_len(md.cause)),
{
    let n = s.len();
    let i = at;
    let l2 = lit_version_vec();
    if !lit_at(s, i, l2.as_slice()) {
        proof {
            assert forall|md: ZoneBundleMetadata|
                #[trigger] canonical_for(s@, md) && at == 16 + spec_rfc_len(
                md.time_created,
            ) implies false by {
                lemma_vc_points(s@, md, at as int);
            }
        }
        return None;
    }
    let i = i + l2.len();
    let run = parse_dec_run(s, i);
    proof {
        assert forall|md: ZoneBundleMetadata|
            #[trigger] canonical_for(s@, md) && at == 16 + spec_rfc_len(
            md.time_created,
        ) implies (run matches Some(v) && v.0 == 0 && v.1 == at + 13) by {
            lemma_vc_points(s@, md, at as int);
            if run is None {
                assert(false);
            } else {
                let (v0, j) = run->0;
                crate::bytestr::lemma_digit_run_unique(s@, i as int, j as int, at + 13);
                assert(s@.subrange(i as int, j as int) == s@.subrange(at + 12, at + 13));
            }
        }
    }
    let (version, i2) = match run {
        Some(v) => v,
        None => {
            return None;
        },
    };
    if version > 255 {
        return None;
    }
    let i = i2;
    let l3 = lit_cause_vec();
    if !lit_at(s, i, l3.as_slice()) {
        proof {
            assert forall|md: ZoneBundleMetadata|
                #[trigger] canonical_for(s@, md) && at == 16 + spec_rfc_len(
                md.time_created,
            ) implies false by {
                lemma_vc_points(s@, md, at as int);
                assert(s@.subrange(i as int, i as int + 10) == s@.subrange(at + 13, at + 23));
            }
        }
        return None;
    }
    let i = i + l3.len();
    let cause_parsed = parse_cause(s, i);
    proof {
        assert forall|md: ZoneBundleMetadata|
            #[trigger] canonical_for(s@, md) && at == 16 + spec_rfc_len(
            md.time_created,
        ) implies cause_parsed == Some(
            (md.cause, (i + spec_cause_len(md.cause)) as usize),
        ) by {
            lemma_vc_points(s@, md, at as int);
        }
    }
    let (cause, i2) = match cause_parsed {
        Some(v) => v,
        None => {
            return None;
        },
    };
    let i = i2;
    proof {
        assert forall|md: ZoneBundleMetadata|
            #[trigger] canonical_for(s@, md) && at == 16 + spec_rfc_len(
            md.time_created,
        ) implies (version == md.version && cause == md.cause && i == 39 + spec_rfc_len(
            md.time_created,
        ) + spec_cause_len(md.cause)) by {
            lemma_vc_points(s@, md, at as int);
        }
    }
    Some((version, cause, i))
}

/// Read the zone-name line of a document.
///
/// On a canonical document the record's zone name comes back, with the
/// position of the name's closing quote.
#[verifier::rlimit(100)]
#[verifier::spinoff_prover]
fn parse_zone_part(s: &[u8], at: usize) -> (r: Option<(Vec<u8>, usize)>)
    requires
        at <= s@.len(),
    ensures
        r matches Some(v) ==> v.1 <= s@.len(),
        forall|md: ZoneBundleMetadata|
            #[trigger] canonical_for(s@, md) && at == 39 + spec_rfc_len(md.time_created)
                + spec_cause_len(md.cause) ==> (r matches Some(v) && v.0@
                == md.id.zone_name@ && v.1 == 60 + spec_rfc_len(md.time_created)
                + spec_cause_len(md.cause) + md.id.zone_name@.len()),
{
    let n = s.len();
    let i = at;
    let l4 = lit_id_table_vec();
    if !lit_at(s, i, l4.as_slice()) {
        proof {
            assert forall|md: ZoneBundleMetadata|
                #[trigger] canonical_for(s@, md) && at == 39 + spec_rfc_len(md.time_created)
                    + spec_cause_len(md.cause) implies false by {
                lemma_zone_points(s@, md, at as int);
            }
        }
        return None;
    }
    let mut i = i + l4.len();
    let ghost i_start = i as int;
    let mut zone_name: Vec<u8> = Vec::new();
    while i < n && s[i] != 0x22
        invariant
            i_start <= i <= s@.len(),
            s@.len() == n,
            forall|md: ZoneBundleMetadata|
                #[trigger] canonical_for(s@, md) && at == 39 + spec_rfc_len(md.time_created)
                    + spec_cause_len(md.cause) ==> (i_start == at + 21 && i - i_start
                    <= md.id.zone_name@.len() && zone_name@ == md.id.zone_name@.take(
                    i - i_start,
                )),
        decreases s@.len() - i,
    {
        let b = s[i];
        if b == 0x5c {
            proof {
                assert forall|md: ZoneBundleMetadata|
                    #[trigger] canonical_for(s@, md) && at == 39 + spec_rfc_len(
                    md.time_created,
                ) + spec_cause_len(md.cause) implies false by {
                    lemma_canonical_wf(s@, md);
                    lemma_zone_points(s@, md, at as int);
                    if i - i_start < md.id.zone_name@.len() {
                        assert(s@[i as int] == md.id.zone_name@[i - i_start]);
                    } else {
                        assert(s@[i as int] == 0x22u8);
                    }
                }
            }
            if i + 1 >= n {
                return None;
            }
            zone_name.push(s[i + 1]);
            i += 2;
        } else {
            proof {
                assert forall|md: ZoneBundleMetadata|
                    #[trigger] canonical_for(s@, md) && at == 39 + spec_rfc_len(
                    md.time_created,
                ) + spec_cause_len(md.cause) implies (i - i_start < md.id.zone_name@.len()
                    && zone_name@.push(b) == md.id.zone_name@.take(i + 1 - i_start)) by {
                    lemma_canonical_wf(s@, md);
                    lemma_zone_points(s@, md, at as int);
                    if i - i_start < md.id.zone_name@.len() {
                        assert(s@[i as int] == md.id.zone_name@[i - i_start]);
                        assert(zone_name@.push(b) =~= md.id.zone_name@.take(i + 1 - i_start));
                    } else {
                        assert(s@[i as int] == 0x22u8);
                    }
                }
            }
            zone_name.push(b);
            i += 1;
        }
    }
    if i >= n {
        proof {
            assert forall|md: ZoneBundleMetadata|
                #[trigger] canonical_for(s@, md) && at == 39 + spec_rfc_len(md.time_created)
                    + spec_cause_len(md.cause) implies false by {
                lemma_zone_points(s@, md, at as int);
            }
        }
        return None;
    }
    proof {
        assert forall|md: ZoneBundleMetadata|
            #[trigger] canonical_for(s@, md) && at == 39 + spec_rfc_len(md.time_created)
                + spec_cause_len(md.cause) implies (zone_name@ == md.id.zone_name@ && i == at
            + 21 + md.id.zone_name@.len()) by {
            lemma_canonical_wf(s@, md);
            lemma_zone_points(s@, md, at as int);
            if i - i_start < md.id.zone_name@.len() {
                assert(s@[i as int] == md.id.zone_name@[i - i_start]);
            }
            assert(md.id.zone_name@.take(md.id.zone_name@.len() as int)
                =~= md.id.zone_name@);
        }
    }
    Some((zone_name, i))
}

/// Structural parse of a document.
///
/// On the rendering of any well-formed record with a simple zone name,
/// the record's own values come back; the caller re-checks every
/// acceptance against the renderer, which also covers documents whose
/// names carry escapes.
#[verifier::rlimit(100)]
fn parse_metadata_loose(s: &[u8]) -> (r: Option<ZoneBundleMetadata>)
    ensures
        forall|md: ZoneBundleMetadata|
            #[trigger] canonical_for(s@, md) ==> (r matches Some(c) && c.id.zone_name@
                == md.id.zone_name@ && c.id.bundle_id == md.id.bundle_id && c.time_created
                == md.time_created && c.version == md.version && c.cause == md.cause),
{
    let n = s.len();
    let l1 = lit_time_created_vec();
    if !lit_at(s, 0, l1.as_slice()) {
        proof {
            assert forall|md: ZoneBundleMetadata|
                #[trigger] canonical_for(s@, md) implies false by {
                lemma_canonical_wf(s@, md);
                lemma_canonical_date_facts(s@, md);
            }
        }
        return None;
    }
    let i: usize = l1.len();
    let parsed_time = parse_timestamp(s);
    let (year, month, day, hour, minute, second, nanos, i) = match parsed_time {
        Some(v) => v,
        None => { return None; },
    };
    let parsed_vc = parse_version_cause(s, i);
    let (version, cause, i) = match parsed_vc {
        Some(v) => v,
        None => { return None; },
    };
    if version > 255 {
        return None;
    }
    let parsed_zone = parse_zone_part(s, i);
    let (zone_name, i) = match parsed_zone {
        Some(v) => v,
        None => { return None; },
    };
    // Bundle identifier.
    let l5 = lit_bundle_id_vec();
    if !lit_at(s, i, l5.as_slice()) {
        proof {
            assert forall|md: ZoneBundleMetadata|
                #[trigger] canonical_for(s@, md) implies false by {
                lemma_canonical_wf(s@, md);
                lemma_canonical_zone_facts(s@, md);
            }
        }
        return None;
    }
    let i = i + l5.len();
    if i > n || n - i < 36 {
        proof {
            assert forall|md: ZoneBundleMetadata|
                #[trigger] canonical_for(s@, md) implies false by {
                lemma_canonical_wf(s@, md);
                lemma_canonical_zone_facts(s@, md);
            }
        }
        return None;
    }
    let uu = vstd::slice::slice_subrange(s, i, i + 36);
    let uuid_parsed = parse_uuid(uu);
    proof {
        assert forall|md: ZoneBundleMetadata|
            #[trigger] canonical_for(s@, md) implies uuid_parsed == Some(md.id.bundle_id) by {
            lemma_canonical_zone_facts(s@, md);
            crate::hexid::lemma_uuid_roundtrip(md.id.bundle_id);
            assert(uu@ == spec_uuid_str(md.id.bundle_id));
        }
    }
    let bundle_id = match uuid_parsed {
        Some(v) => v,
        None => { return None; },
    };
    let i = i + 36;
    let l6 = lit_end_vec();
    if !lit_at(s, i, l6.as_slice()) {
        proof {
            assert forall|md: ZoneBundleMetadata|
                #[trigger] canonical_for(s@, md) implies false by {
                lemma_canonical_wf(s@, md);
                lemma_canonical_zone_facts(s@, md);
            }
        }
        return None;
    }
    if i + l6.len() != n {
        proof {
            assert forall|md: ZoneBundleMetadata|
                #[trigger] canonical_for(s@, md) implies false by {
                lemma_canonical_wf(s@, md);
                lemma_canonical_zone_facts(s@, md);
            }
        }
        return None;
    }
    if year < 1970 || year > 9999 || month < 1 || month > 12 || day < 1 || day > 31 || hour > 23
        || minute > 59 || second > 59 || nanos >= 1_000_000_000 {
        proof {
            assert forall|md: ZoneBundleMetadata|
                #[trigger] canonical_for(s@, md) implies false by {
                lemma_canonical_wf(s@, md);
            }
        }
        return None;
    }
    Some(
        ZoneBundleMetadata {
            id: ZoneBundleId { zone_name, bundle_id },
            time_created: UtcTime {
                year: year as u16,
                month: month as u8,
                day: day as u8,
                hour: hour as u8,
                minute: minute as u8,
                second: second as u8,
                nanos: nanos as u32,
            },
            version: version as u8,
            cause,
        },
    )
}

/// The width of the canonical subsecond digits of a nanosecond count.
pub open spec fn spec_frac_width(nanos: u32) -> int {
    if nanos % 1_000_000 == 0 {
        3
    } else if nanos % 1000 == 0 {
        6
    } else {
        9
    }
}

/// The value the canonical subsecond digits denote.
pub open spec fn spec_frac_value(nanos: u32) -> int {
    if nanos % 1_000_000 == 0 {
        nanos as int / 1_000_000
    } else if nanos % 1000 == 0 {
        nanos as int / 1000
    } else {
        nanos as int
    }
}

/// The canonical subsecond digits of a well-formed count: their width,
/// their digits, their value and its bound, and the scaling back.
proof fn lemma_frac_cases(nanos: u32)
    requires
        nanos < 1_000_000_000,
    ensures
        0 <= spec_frac_value(nanos) < crate::bytestr::pow10(spec_frac_width(nanos) as nat),
        spec_frac_width(nanos) == 3 ==> spec_frac_value(nanos) <= 999 && spec_frac_value(nanos)
            * 1_000_000 == nanos,
        spec_frac_width(nanos) == 6 ==> spec_frac_value(nanos) <= 999_999 && spec_frac_value(
            nanos,
        ) * 1000 == nanos,
        spec_frac_width(nanos) == 9 ==> spec_frac_value(nanos) <= 999_999_999
            && spec_frac_value(nanos) == nanos,
{
    crate::bytestr::lemma_pow10_small();
}

/// On a canonical document with subseconds, the digits stand at their
/// place with the terminal letter after them.
proof fn lemma_frac_run(s: Seq<u8>, md: ZoneBundleMetadata)
    requires
        canonical_for(s, md),
        md.time_created.nanos != 0,
    ensures
        ({
            let k = spec_frac_width(md.time_created.nanos);
            &&& 36 + k < s.len()
            &&& all_digits(s.subrange(36, 36 + k))
            &&& dec_value(s.subrange(36, 36 + k)) == spec_frac_value(md.time_created.nanos)
            &&& s[36 + k] == 0x5au8
            &&& spec_rfc_len(md.time_created) == 21 + k
        }),
{
    reveal(canonical_for);
    lemma_canonical_frac_facts(s, md);
    lemma_canonical_date_facts(s, md);
    lemma_frac_cases(md.time_created.nanos);
    let t = md.time_created;
    if t.nanos % 1_000_000 == 0 {
        crate::bytestr::lemma_dec_fixed_value(t.nanos as int / 1_000_000, 3);
    } else if t.nanos % 1000 == 0 {
        crate::bytestr::lemma_dec_fixed_value(t.nanos as int / 1000, 6);
    } else {
        crate::bytestr::lemma_dec_fixed_value(t.nanos as int, 9);
    }
}

/// The digit run the parser reads for the subseconds of a canonical
/// document is exactly the canonical digits.
proof fn lemma_frac_run_unique(s: Seq<u8>, md: ZoneBundleMetadata, j: int, frac: int)
    requires
        canonical_for(s, md),
        md.time_created.nanos != 0,
        36 < j <= s.len(),
        all_digits(s.subrange(36, j)),
        j == s.len() || !crate::bytestr::is_digit(s[j]),
        frac == dec_value(s.subrange(36, j)),
    ensures
        j == 36 + spec_frac_width(md.time_created.nanos),
        frac == spec_frac_value(md.time_created.nanos),
{
    reveal(canonical_for);
    lemma_frac_run(s, md);
    let k = spec_frac_width(md.time_created.nanos);
    if j < 36 + k {
        assert(crate::bytestr::is_digit(s[j])) by {
            assert(s.subrange(36, 36 + k)[j - 36] == s[j]);
        }
        assert(false);
    }
    if j > 36 + k {
        assert(crate::bytestr::is_digit(s[36 + k])) by {
            assert(s.subrange(36, j)[k] == s[36 + k]);
        }
        assert(false);
    }
    assert(s.subrange(36, j) == s.subrange(36, 36 + k));
}

/// On a canonical document, the version digits are the single zero digit
/// with the cause line's break after it.
proof fn lemma_version_run(s: Seq<u8>, md: ZoneBundleMetadata)
    requires
        canonical_for(s, md),
    ensures
        ({
            let rl = spec_rfc_len(md.time_created);
            &&& 29 + rl < s.len()
            &&& all_digits(s.subrange(28 + rl, 29 + rl))
            &&& dec_value(s.subrange(28 + rl, 29 + rl)) == 0
            &&& !crate::bytestr::is_digit(s[29 + rl])
        }),
{
    reveal(canonical_for);
    lemma_canonical_cause_facts(s, md);
    lemma_canonical_zone_facts(s, md);
    let rl = spec_rfc_len(md.time_created);
    let z = s.subrange(28 + rl, 29 + rl);
    assert(z == seq![0x30u8]);
    assert(z.drop_last() =~= Seq::<u8>::empty());
    assert(dec_value(z) == dec_value(z.drop_last()) * 10 + (z.last() - 0x30));
    assert(forall|q: int| 0 <= q < z.len() ==> 0x30 <= #[trigger] z[q] <= 0x39);
}

/// The digit run the parser reads for the version of a canonical
/// document is exactly the zero digit.
proof fn lemma_version_run_unique(s: Seq<u8>, md: ZoneBundleMetadata, j: int, version: int)
    requires
        canonical_for(s, md),
        28 + spec_rfc_len(md.time_created) < j <= s.len(),
        all_digits(s.subrange(28 + spec_rfc_len(md.time_created), j)),
        j == s.len() || !crate::bytestr::is_digit(s[j]),
        version == dec_value(s.subrange(28 + spec_rfc_len(md.time_created), j)),
    ensures
        j == 29 + spec_rfc_len(md.time_created),
        version == 0,
{
    reveal(canonical_for);
    lemma_version_run(s, md);
    let rl = spec_rfc_len(md.time_created);
    if j > 29 + rl {
        assert(crate::bytestr::is_digit(s[29 + rl])) by {
            assert(s.subrange(28 + rl, j)[1] == s[29 + rl]);
        }
        assert(false);
    }
    assert(s.subrange(28 + rl, j) == s.subrange(28 + rl, 29 + rl));
}

/// Whether the name of cause `c` stands at position `i` of `s`.
pub open spec fn cause_name_at(s: Seq<u8>, i: int, c: ZoneBundleCause) -> bool {
    0 <= i && i + spec_cause_len(c) <= s.len() && s.subrange(i, i + spec_cause_len(c))
        == spec_cause_name(c)
}

/// Read a cause name at position `i`.
///
/// Whichever cause's name stands at the position is read: the four names
/// begin with four different letters, so at most one can.
fn parse_cause(s: &[u8], i: usize) -> (r: Option<(ZoneBundleCause, usize)>)
    ensures
        r matches Some((_, j)) ==> i <= j <= s@.len(),
        forall|c: ZoneBundleCause|
            #[trigger] cause_name_at(s@, i as int, c) ==> r == Some(
                (c, (i + spec_cause_len(c)) as usize),
            ),
{
    let n = s.len();
    proof {
        assert(n == s@.len());
    }
    let c1 = lit_other_vec();
    if lit_at(s, i, c1.as_slice()) {
        proof {
            lemma_cause_first_bytes(s@, i as int);
        }
        return Some((ZoneBundleCause::Other, i + c1.len()));
    }
    let c2 = lit_unexpected_zone_vec();
    if lit_at(s, i, c2.as_slice()) {
        proof {
            lemma_cause_first_bytes(s@, i as int);
        }
        return Some((ZoneBundleCause::UnexpectedZone, i + c2.len()));
    }
    let c3 = lit_terminated_instance_vec();
    if lit_at(s, i, c3.as_slice()) {
        proof {
            lemma_cause_first_bytes(s@, i as int);
        }
        return Some((ZoneBundleCause::TerminatedInstance, i + c3.len()));
    }
    let c4 = lit_explicit_request_vec();
    if lit_at(s, i, c4.as_slice()) {
        proof {
            lemma_cause_first_bytes(s@, i as int);
        }
        return Some((ZoneBundleCause::ExplicitRequest, i + c4.len()));
    }
    proof {
        lemma_cause_first_bytes(s@, i as int);
    }
    None
}

/// Any cause name standing at a position fixes the byte there to its
/// first letter, and those letters are pairwise distinct.
proof fn lemma_cause_first_bytes(s: Seq<u8>, i: int)
    ensures
        forall|c: ZoneBundleCause|
            #[trigger] cause_name_at(s, i, c) ==> s[i] == spec_cause_name(c)[0],
        spec_cause_name(ZoneBundleCause::Other)[0] == 0x6fu8,
        spec_cause_name(ZoneBundleCause::UnexpectedZone)[0] == 0x75u8,
        spec_cause_name(ZoneBundleCause::TerminatedInstance)[0] == 0x74u8,
        spec_cause_name(ZoneBundleCause::ExplicitRequest)[0] == 0x65u8,
{
    assert forall|c: ZoneBundleCause| #[trigger] cause_name_at(s, i, c) implies s[i]
        == spec_cause_name(c)[0] by {
        assert(spec_cause_name(c).len() >= 1) by {
            match c {
                ZoneBundleCause::Other => {},
                ZoneBundleCause::UnexpectedZone => {},
                ZoneBundleCause::TerminatedInstance => {},
                ZoneBundleCause::ExplicitRequest => {},
            }
        }
        assert(spec_cause_name(c)[0] == s.subrange(i, i + spec_cause_len(c))[0]);
    }
}


/// A simple name: printable, and free of the two escaped bytes, so its
/// escaped form is itself.
pub open spec fn simple_name(z: Seq<u8>) -> bool {
    plain_name(z) && forall|i: int| 0 <= i < z.len() ==> #[trigger] z[i] != 0x22 && z[i] != 0x5c
}

/// A simple name escapes to itself.
pub proof fn lemma_escape_identity(z: Seq<u8>)
    requires
        simple_name(z),
    ensures
        spec_escape(z) == z,
    decreases z.len(),
{
    if z.len() > 0 {
        assert(simple_name(z.drop_last())) by {
            assert(forall|i: int| 0 <= i < z.drop_last().len() ==> z.drop_last()[i] == z[i]);
        }
        lemma_escape_identity(z.drop_last());
        assert(z[z.len() - 1] != 0x22 && z[z.len() - 1] != 0x5c);
        assert(escape_byte(z.last()) =~= seq![z.last()]);
        assert(spec_escape(z) =~= z);
    }
}

/// A fixed-width decimal rendering has its width, whatever the value.
proof fn lemma_dec_fixed_len(v: int, k: nat)
    ensures
        dec_fixed(v, k).len() == k,
    decreases k,
{
    if k > 0 {
        lemma_dec_fixed_len(v / 10, (k - 1) as nat);
    }
}

/// The length of a rendered instant, by its subsecond case.
pub open spec fn spec_rfc_len(t: UtcTime) -> int {
    if t.nanos == 0 {
        20
    } else if t.nanos % 1_000_000 == 0 {
        24
    } else if t.nanos % 1000 == 0 {
        27
    } else {
        30
    }
}

/// The rendered instant has the length of its subsecond case.
pub proof fn lemma_rfc_len(t: UtcTime)
    ensures
        spec_rfc3339(t).len() == spec_rfc_len(t),
{
    lemma_dec_fixed_len(t.year as int, 4);
    lemma_dec_fixed_len(t.month as int, 2);
    lemma_dec_fixed_len(t.day as int, 2);
    lemma_dec_fixed_len(t.hour as int, 2);
    lemma_dec_fixed_len(t.minute as int, 2);
    lemma_dec_fixed_len(t.second as int, 2);
    if t.nanos != 0 {
        if t.nanos % 1_000_000 == 0 {
            lemma_dec_fixed_len(t.nanos as int / 1_000_000, 3);
        } else if t.nanos % 1000 == 0 {
            lemma_dec_fixed_len(t.nanos as int / 1000, 6);
        } else {
            lemma_dec_fixed_len(t.nanos as int, 9);
        }
    }
}

/// The length of a rendered cause name.
pub open spec fn spec_cause_len(c: ZoneBundleCause) -> int {
    spec_cause_name(c).len() as int
}

/// Where the pieces of a rendered document stand: each region of the
/// document, from the opening label to the closing quote, as a subrange
/// equality at its computed offset.
#[verifier::rlimit(60)]
pub proof fn lemma_doc_layout(md: ZoneBundleMetadata)
    requires
        md.wf(),
        simple_name(md.id.zone_name@),
    ensures
        ({
            let s = spec_metadata_doc(md);
            let rl = spec_rfc_len(md.time_created);
            let cl = spec_cause_len(md.cause);
            let zl = md.id.zone_name@.len() as int;
            &&& s.len() == 113 + rl + cl + zl
            &&& s.subrange(0, 16) == lit_time_created()
            &&& s.subrange(16, 16 + rl) == spec_rfc3339(md.time_created)
            &&& s.subrange(16 + rl, 28 + rl) == lit_version()
            &&& s.subrange(28 + rl, 29 + rl) == seq![0x30u8]
            &&& s.subrange(29 + rl, 39 + rl) == lit_cause()
            &&& s.subrange(39 + rl, 39 + rl + cl) == spec_cause_name(md.cause)
            &&& s.subrange(39 + rl + cl, 60 + rl + cl) == lit_id_table()
            &&& s.subrange(60 + rl + cl, 60 + rl + cl + zl) == md.id.zone_name@
            &&& s.subrange(60 + rl + cl + zl, 75 + rl + cl + zl) == lit_bundle_id()
            &&& s.subrange(75 + rl + cl + zl, 111 + rl + cl + zl) == spec_uuid_str(
                md.id.bundle_id,
            )
            &&& s.subrange(111 + rl + cl + zl, 113 + rl + cl + zl) == lit_end()
        }),
{
    let s = spec_metadata_doc(md);
    let rl = spec_rfc_len(md.time_created);
    let cl = spec_cause_len(md.cause);
    let zl = md.id.zone_name@.len() as int;
    lemma_rfc_len(md.time_created);
    lemma_escape_identity(md.id.zone_name@);
    assert(dec_of(md.version as int) =~= seq![0x30u8]);
    crate::hexid::lemma_pow16_32();
    crate::hexid::lemma_hex_fixed_value(md.id.bundle_id as int, 32);
    assert(spec_uuid_str(md.id.bundle_id).len() == 36);
    assert(s.len() == 113 + rl + cl + zl);
    assert(s.subrange(0, 16) =~= lit_time_created());
    assert(s.subrange(16, 16 + rl) =~= spec_rfc3339(md.time_created));
    assert(s.subrange(16 + rl, 28 + rl) =~= lit_version());
    assert(s.subrange(28 + rl, 29 + rl) =~= seq![0x30u8]);
    assert(s.subrange(29 + rl, 39 + rl) =~= lit_cause());
    assert(s.subrange(39 + rl, 39 + rl + cl) =~= spec_cause_name(md.cause));
    assert(s.subrange(39 + rl + cl, 60 + rl + cl) =~= lit_id_table());
    assert(s.subrange(60 + rl + cl, 60 + rl + cl + zl) =~= md.id.zone_name@);
    assert(s.subrange(60 + rl + cl + zl, 75 + rl + cl + zl) =~= lit_bundle_id());
    assert(s.subrange(75 + rl + cl + zl, 111 + rl + cl + zl) =~= spec_uuid_str(
        md.id.bundle_id,
    ));
    assert(s.subrange(111 + rl + cl + zl, 113 + rl + cl + zl) =~= lit_end());
}


/// Where the pieces of a rendered instant stand.
#[verifier::rlimit(60)]
pub proof fn lemma_rfc_layout(t: UtcTime)
    ensures
        ({
            let r = spec_rfc3339(t);
            let rl = spec_rfc_len(t);
            &&& r.subrange(0, 4) == dec_fixed(t.year as int, 4)
            &&& r[4] == 0x2du8
            &&& r.subrange(5, 7) == dec_fixed(t.month as int, 2)
            &&& r[7] == 0x2du8
            &&& r.subrange(8, 10) == dec_fixed(t.day as int, 2)
            &&& r[10] == 0x54u8
            &&& r.subrange(11, 13) == dec_fixed(t.hour as int, 2)
            &&& r[13] == 0x3au8
            &&& r.subrange(14, 16) == dec_fixed(t.minute as int, 2)
            &&& r[16] == 0x3au8
            &&& r.subrange(17, 19) == dec_fixed(t.second as int, 2)
            &&& (t.nanos == 0 ==> r[19] == 0x5au8)
            &&& (t.nanos != 0 ==> r[19] == 0x2eu8 && r[rl - 1] == 0x5au8)
            &&& (t.nanos != 0 && t.nanos % 1_000_000 == 0 ==> r.subrange(20, 23) == dec_fixed(
                t.nanos as int / 1_000_000,
                3,
            ))
            &&& (t.nanos % 1_000_000 != 0 && t.nanos % 1000 == 0 ==> r.subrange(20, 26)
                == dec_fixed(t.nanos as int / 1000, 6))
            &&& (t.nanos % 1000 != 0 ==> r.subrange(20, 29) == dec_fixed(t.nanos as int, 9))
        }),
{
    let r = spec_rfc3339(t);
    let rl = spec_rfc_len(t);
    lemma_rfc_len(t);
    lemma_dec_fixed_len(t.year as int, 4);
    lemma_dec_fixed_len(t.month as int, 2);
    lemma_dec_fixed_len(t.day as int, 2);
    lemma_dec_fixed_len(t.hour as int, 2);
    lemma_dec_fixed_len(t.minute as int, 2);
    lemma_dec_fixed_len(t.second as int, 2);
    assert(r.subrange(0, 4) =~= dec_fixed(t.year as int, 4));
    assert(r.subrange(5, 7) =~= dec_fixed(t.month as int, 2));
    assert(r.subrange(8, 10) =~= dec_fixed(t.day as int, 2));
    assert(r.subrange(11, 13) =~= dec_fixed(t.hour as int, 2));
    assert(r.subrange(14, 16) =~= dec_fixed(t.minute as int, 2));
    assert(r.subrange(17, 19) =~= dec_fixed(t.second as int, 2));
    if t.nanos != 0 {
        if t.nanos % 1_000_000 == 0 {
            lemma_dec_fixed_len(t.nanos as int / 1_000_000, 3);
            assert(r.subrange(20, 23) =~= dec_fixed(t.nanos as int / 1_000_000, 3));
        } else if t.nanos % 1000 == 0 {
            lemma_dec_fixed_len(t.nanos as int / 1000, 6);
            assert(r.subrange(20, 26) =~= dec_fixed(t.nanos as int / 1000, 6));
        } else {
            lemma_dec_fixed_len(t.nanos as int, 9);
            assert(r.subrange(20, 29) =~= dec_fixed(t.nanos as int, 9));
        }
    }
}


/// Whether `s` is the rendered document of `md`, for a well-formed
/// record with a simple zone name. The definition is kept out of the
/// solver's sight; the introduction rule below establishes it.
#[verifier::opaque]
pub open spec fn canonical_for(s: Seq<u8>, md: ZoneBundleMetadata) -> bool {
    md.wf() && simple_name(md.id.zone_name@) && s == spec_metadata_doc(md)
}

/// A canonical document's record is well formed, with a simple name.
pub proof fn lemma_canonical_wf(s: Seq<u8>, md: ZoneBundleMetadata)
    requires
        canonical_for(s, md),
    ensures
        md.wf(),
        simple_name(md.id.zone_name@),
{
    reveal(canonical_for);
}

/// The definition of a canonical document, as an introduction rule.
pub proof fn lemma_canonical_intro(s: Seq<u8>, md: ZoneBundleMetadata)
    requires
        md.wf(),
        simple_name(md.id.zone_name@),
        s == spec_metadata_doc(md),
    ensures
        canonical_for(s, md),
{
    reveal(canonical_for);
}

/// The byte-level facts the parser needs about the date of a canonical
/// document: the opening label and each digit group and separator up to
/// the seconds.
#[verifier::rlimit(100)]
#[verifier::spinoff_prover]
pub proof fn lemma_canonical_date_facts(s: Seq<u8>, md: ZoneBundleMetadata)
    requires
        canonical_for(s, md),
    ensures
        ({
            let t = md.time_created;
            let rl = spec_rfc_len(t);
            let cl = spec_cause_len(md.cause);
            let zl = md.id.zone_name@.len() as int;
            &&& s.len() == 113 + rl + cl + zl
            &&& 20 <= rl <= 30
            &&& 5 <= cl <= 19
            &&& s.subrange(0, 16) == lit_time_created()
            &&& s.subrange(16, 20) == dec_fixed(t.year as int, 4)
            &&& s[20] == 0x2du8
            &&& s.subrange(21, 23) == dec_fixed(t.month as int, 2)
            &&& s[23] == 0x2du8
            &&& s.subrange(24, 26) == dec_fixed(t.day as int, 2)
            &&& s[26] == 0x54u8
            &&& s.subrange(27, 29) == dec_fixed(t.hour as int, 2)
            &&& s[29] == 0x3au8
            &&& s.subrange(30, 32) == dec_fixed(t.minute as int, 2)
            &&& s[32] == 0x3au8
            &&& s.subrange(33, 35) == dec_fixed(t.second as int, 2)
        }),
{
    reveal(canonical_for);
    let t = md.time_created;
    let rl = spec_rfc_len(t);
    lemma_doc_layout(md);
    lemma_rfc_layout(t);
    let r = spec_rfc3339(t);
    assert(s.subrange(16, 16 + rl) == r);
    assert(forall|q: int| 0 <= q < rl ==> s[16 + q] == #[trigger] r[q]) by {
        assert(forall|q: int|
            0 <= q < rl ==> #[trigger] r[q] == s.subrange(16, 16 + rl)[q]);
    }
    assert(s.subrange(16, 20) =~= r.subrange(0, 4));
    assert(s.subrange(21, 23) =~= r.subrange(5, 7));
    assert(s.subrange(24, 26) =~= r.subrange(8, 10));
    assert(s.subrange(27, 29) =~= r.subrange(11, 13));
    assert(s.subrange(30, 32) =~= r.subrange(14, 16));
    assert(s.subrange(33, 35) =~= r.subrange(17, 19));
    match md.cause {
        ZoneBundleCause::Other => {},
        ZoneBundleCause::UnexpectedZone => {},
        ZoneBundleCause::TerminatedInstance => {},
        ZoneBundleCause::ExplicitRequest => {},
    }
}

/// The byte-level facts the parser needs about the subseconds of a
/// canonical document: the dot, the digits of the case taken, and the
/// terminal letter.
#[verifier::rlimit(100)]
#[verifier::spinoff_prover]
pub proof fn lemma_canonical_frac_facts(s: Seq<u8>, md: ZoneBundleMetadata)
    requires
        canonical_for(s, md),
    ensures
        ({
            let t = md.time_created;
            let rl = spec_rfc_len(t);
            &&& (t.nanos == 0 ==> s[35] == 0x5au8 && rl == 20)
            &&& (t.nanos != 0 ==> s[35] == 0x2eu8)
            &&& (t.nanos != 0 && t.nanos % 1_000_000 == 0 ==> s.subrange(36, 39) == dec_fixed(
                t.nanos as int / 1_000_000,
                3,
            ) && s[39] == 0x5au8 && rl == 24)
            &&& (t.nanos % 1_000_000 != 0 && t.nanos % 1000 == 0 ==> s.subrange(36, 42)
                == dec_fixed(t.nanos as int / 1000, 6) && s[42] == 0x5au8 && rl == 27)
            &&& (t.nanos % 1000 != 0 ==> s.subrange(36, 45) == dec_fixed(t.nanos as int, 9)
                && s[45] == 0x5au8 && rl == 30)
        }),
{
    reveal(canonical_for);
    let t = md.time_created;
    let rl = spec_rfc_len(t);
    lemma_doc_layout(md);
    lemma_rfc_layout(t);
    let r = spec_rfc3339(t);
    assert(s.subrange(16, 16 + rl) == r);
    assert(forall|q: int| 0 <= q < rl ==> s[16 + q] == #[trigger] r[q]) by {
        assert(forall|q: int|
            0 <= q < rl ==> #[trigger] r[q] == s.subrange(16, 16 + rl)[q]);
    }
    if t.nanos != 0 {
        if t.nanos % 1_000_000 == 0 {
            assert(s.subrange(36, 39) =~= r.subrange(20, 23));
        } else if t.nanos % 1000 == 0 {
            assert(s.subrange(36, 42) =~= r.subrange(20, 26));
        } else {
            assert(s.subrange(36, 45) =~= r.subrange(20, 29));
        }
    }
}

/// The byte-level facts the parser needs about the version and cause
/// lines of a canonical document.
#[verifier::rlimit(100)]
#[verifier::spinoff_prover]
pub proof fn lemma_canonical_cause_facts(s: Seq<u8>, md: ZoneBundleMetadata)
    requires
        canonical_for(s, md),
    ensures
        ({
            let t = md.time_created;
            let rl = spec_rfc_len(t);
            let cl = spec_cause_len(md.cause);
            &&& s.subrange(16 + rl, 28 + rl) == lit_version()
            &&& s.subrange(28 + rl, 29 + rl) == seq![0x30u8]
            &&& s[29 + rl] == 0x0au8
            &&& s.subrange(29 + rl, 39 + rl) == lit_cause()
            &&& cause_name_at(s, 39 + rl, md.cause)
            &&& s[39 + rl + cl] == 0x22u8
        }),
{
    reveal(canonical_for);
    let t = md.time_created;
    let rl = spec_rfc_len(t);
    let cl = spec_cause_len(md.cause);
    lemma_doc_layout(md);
    lemma_rfc_len(t);
    assert(s[29 + rl] == lit_cause()[0]) by {
        assert(lit_cause()[0] == s.subrange(29 + rl, 39 + rl)[0]);
    }
    assert(s[39 + rl + cl] == lit_id_table()[0]) by {
        assert(lit_id_table()[0] == s.subrange(39 + rl + cl, 60 + rl + cl)[0]);
    }
    match md.cause {
        ZoneBundleCause::Other => {},
        ZoneBundleCause::UnexpectedZone => {},
        ZoneBundleCause::TerminatedInstance => {},
        ZoneBundleCause::ExplicitRequest => {},
    }
}

/// The byte-level facts the parser needs about the zone name, the
/// identifier and the closing quote of a canonical document.
#[verifier::rlimit(100)]
#[verifier::spinoff_prover]
pub proof fn lemma_canonical_zone_facts(s: Seq<u8>, md: ZoneBundleMetadata)
    requires
        canonical_for(s, md),
    ensures
        ({
            let t = md.time_created;
            let rl = spec_rfc_len(t);
            let cl = spec_cause_len(md.cause);
            let zl = md.id.zone_name@.len() as int;
            &&& s.len() == 113 + rl + cl + zl
            &&& s.subrange(39 + rl + cl, 60 + rl + cl) == lit_id_table()
            &&& (forall|q: int|
                0 <= q < zl ==> s[60 + rl + cl + q] == #[trigger] md.id.zone_name@[q])
            &&& s[60 + rl + cl + zl] == 0x22u8
            &&& s.subrange(60 + rl + cl + zl, 75 + rl + cl + zl) == lit_bundle_id()
            &&& s.subrange(75 + rl + cl + zl, 111 + rl + cl + zl) == spec_uuid_str(
                md.id.bundle_id,
            )
            &&& s.subrange(111 + rl + cl + zl, 113 + rl + cl + zl) == lit_end()
        }),
{
    reveal(canonical_for);
    let t = md.time_created;
    let rl = spec_rfc_len(t);
    let cl = spec_cause_len(md.cause);
    let zl = md.id.zone_name@.len() as int;
    lemma_doc_layout(md);
    lemma_rfc_len(t);
    assert(s[60 + rl + cl + zl] == lit_bundle_id()[0]) by {
        assert(lit_bundle_id()[0] == s.subrange(60 + rl + cl + zl, 75 + rl + cl + zl)[0]);
    }
    assert(forall|q: int|
        0 <= q < zl ==> s[60 + rl + cl + q] == #[trigger] md.id.zone_name@[q]) by {
        assert(forall|q: int|
            0 <= q < zl ==> #[trigger] md.id.zone_name@[q] == s.subrange(
                60 + rl + cl,
                60 + rl + cl + zl,
            )[q]);
    }
}


} // verus!



