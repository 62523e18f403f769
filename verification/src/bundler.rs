//! The bundle lifecycle cores: laying a bundle's archive out, recovering
//! metadata from an archive, matching names against filters, and parsing
//! the outputs of the disk-usage and quota commands.
//!
//! The surrounding process does every filesystem and subprocess step:
//! it hands zone names, command outputs and log-file contents in as plain
//! values, writes the finished archive bytes to each storage root, and
//! deletes the files the cleanup plan names.

use vstd::prelude::*;
use crate::archive::{
    append_tar_end, append_tar_entry, spec_tar_end, spec_tar_entry, OCTAL11_LIMIT,
};
use crate::bytestr::{bytes_eq, contains_bytes, contains_seq, dec_value, is_prefix, all_digits,
    parse_u64_dec, push_bytes, starts_with};
use crate::errors::BundleError;
use crate::gz::{gzip_compress, gzip_decompress, gzip_of};
use crate::hexid::{render_uuid, spec_uuid_str, lemma_hex_fixed_value};
use crate::meta::ZoneBundleMetadata;
use crate::toml_meta::{parse_metadata, plain_name, render_metadata, spec_metadata_doc};

verus! {

/// The bytes of the text `metadata.toml`.
pub open spec fn lit_metadata_name() -> Seq<u8> {
    seq![0x6du8, 0x65u8, 0x74u8, 0x61u8, 0x64u8, 0x61u8, 0x74u8, 0x61u8, 0x2eu8, 0x74u8, 0x6fu8, 0x6du8, 0x6cu8]
}

/// Executable copy of the same literal.
pub fn lit_metadata_name_vec() -> (r: Vec<u8>)
    ensures
        r@ == lit_metadata_name(),
{
    let mut v: Vec<u8> = Vec::new();
    v.push(0x6d);
    v.push(0x65);
    v.push(0x74);
    v.push(0x61);
    v.push(0x64);
    v.push(0x61);
    v.push(0x74);
    v.push(0x61);
    v.push(0x2e);
    v.push(0x74);
    v.push(0x6f);
    v.push(0x6d);
    v.push(0x6c);
    proof {
        assert(v@ =~= lit_metadata_name());
    }
    v
}

/// The bytes of the text `.tar.gz`.
pub open spec fn lit_targz_ext() -> Seq<u8> {
    seq![0x2eu8, 0x74u8, 0x61u8, 0x72u8, 0x2eu8, 0x67u8, 0x7au8]
}

/// Executable copy of the same literal.
pub fn lit_targz_ext_vec() -> (r: Vec<u8>)
    ensures
        r@ == lit_targz_ext(),
{
    let mut v: Vec<u8> = Vec::new();
    v.push(0x2e);
    v.push(0x74);
    v.push(0x61);
    v.push(0x72);
    v.push(0x2e);
    v.push(0x67);
    v.push(0x7a);
    proof {
        assert(v@ =~= lit_targz_ext());
    }
    v
}

/// The bytes of the text `oxide-`.
pub open spec fn lit_oxide_prefix() -> Seq<u8> {
    seq![0x6fu8, 0x78u8, 0x69u8, 0x64u8, 0x65u8, 0x2du8]
}

/// Executable copy of the same literal.
pub fn lit_oxide_prefix_vec() -> (r: Vec<u8>)
    ensures
        r@ == lit_oxide_prefix(),
{
    let mut v: Vec<u8> = Vec::new();
    v.push(0x6f);
    v.push(0x78);
    v.push(0x69);
    v.push(0x64);
    v.push(0x65);
    v.push(0x2d);
    proof {
        assert(v@ =~= lit_oxide_prefix());
    }
    v
}

/// The bytes of the text `system-illumos-`.
pub open spec fn lit_illumos_prefix() -> Seq<u8> {
    seq![0x73u8, 0x79u8, 0x73u8, 0x74u8, 0x65u8, 0x6du8, 0x2du8, 0x69u8, 0x6cu8, 0x6cu8, 0x75u8, 0x6du8, 0x6fu8, 0x73u8, 0x2du8]
}

/// Executable copy of the same literal.
pub fn lit_illumos_prefix_vec() -> (r: Vec<u8>)
    ensures
        r@ == lit_illumos_prefix(),
{
    let mut v: Vec<u8> = Vec::new();
    v.push(0x73);
    v.push(0x79);
    v.push(0x73);
    v.push(0x74);
    v.push(0x65);
    v.push(0x6d);
    v.push(0x2d);
    v.push(0x69);
    v.push(0x6c);
    v.push(0x6c);
    v.push(0x75);
    v.push(0x6d);
    v.push(0x6f);
    v.push(0x73);
    v.push(0x2d);
    proof {
        assert(v@ =~= lit_illumos_prefix());
    }
    v
}

/// The bytes of the text `.log`.
pub open spec fn lit_log_infix() -> Seq<u8> {
    seq![0x2eu8, 0x6cu8, 0x6fu8, 0x67u8]
}

/// Executable copy of the same literal.
pub fn lit_log_infix_vec() -> (r: Vec<u8>)
    ensures
        r@ == lit_log_infix(),
{
    let mut v: Vec<u8> = Vec::new();
    v.push(0x2e);
    v.push(0x6c);
    v.push(0x6f);
    v.push(0x67);
    proof {
        assert(v@ =~= lit_log_infix());
    }
    v
}


/// One captured file of a bundle: the name of its archive entry and its
/// contents.
#[derive(Clone, Debug, PartialEq, Eq)]
pub struct BundleFile {
    pub name: Vec<u8>,
    pub contents: Vec<u8>,
}

/// The archive entries of the captured files, in order.
pub open spec fn spec_extra_entries(extras: Seq<BundleFile>, mtime: int) -> Seq<u8>
    decreases extras.len(),
{
    if extras.len() == 0 {
        Seq::empty()
    } else {
        spec_extra_entries(extras.drop_last(), mtime) + spec_tar_entry(
            extras.last().name@,
            extras.last().contents@,
            mtime,
        )
    }
}

/// Whether every captured file fits its archive fields.
pub open spec fn extras_fit(extras: Seq<BundleFile>) -> bool {
    forall|i: int|
        0 <= i < extras.len() ==> (#[trigger] extras[i]).name@.len() <= 100 && extras[i].contents@.len()
            < OCTAL11_LIMIT
}

/// The whole uncompressed bundle archive: the metadata document first,
/// then each captured file, then the closing zero blocks.
pub open spec fn spec_bundle_tar(doc: Seq<u8>, extras: Seq<BundleFile>, mtime: int) -> Seq<u8> {
    spec_tar_entry(lit_metadata_name(), doc, mtime) + spec_extra_entries(extras, mtime)
        + spec_tar_end()
}

/// The file name a bundle is stored under: its identifier and the
/// archive extension.
pub open spec fn spec_bundle_filename(bundle_id: u128) -> Seq<u8> {
    spec_uuid_str(bundle_id) + lit_targz_ext()
}

/// Render a bundle's file name.
pub fn bundle_filename(bundle_id: u128) -> (r: Vec<u8>)
    ensures
        r@ == spec_bundle_filename(bundle_id),
{
    let mut out = render_uuid(bundle_id);
    let ext = lit_targz_ext_vec();
    push_bytes(&mut out, ext.as_slice());
    out
}

/// A bundle file name holds no zero byte: its identifier renders to
/// hexadecimal digits and hyphens, and the extension is plain text.
proof fn lemma_filename_no_nul(bundle_id: u128)
    ensures
        forall|i: int|
            0 <= i < spec_bundle_filename(bundle_id).len() ==> #[trigger] spec_bundle_filename(
                bundle_id,
            )[i] != 0,
{
    let f = spec_bundle_filename(bundle_id);
    let u = spec_uuid_str(bundle_id);
    crate::hexid::lemma_pow16_32();
    lemma_hex_fixed_value(bundle_id as int, 32);
    let h = crate::hexid::hex_fixed(bundle_id as int, 32);
    assert forall|i: int| 0 <= i < f.len() implies #[trigger] f[i] != 0 by {
        if i < 36 {
            assert(f[i] == u[i]);
            if i == 8 || i == 13 || i == 18 || i == 23 {
                assert(u[i] == 0x2du8);
            } else {
                let hi: int = if i < 8 {
                    i
                } else if i < 13 {
                    i - 1
                } else if i < 18 {
                    i - 2
                } else if i < 23 {
                    i - 3
                } else {
                    i - 4
                };
                assert(u[i] == h[hi]);
                assert(crate::hexid::is_hex_digit(h[hi]));
            }
        } else {
            assert(f[i] == lit_targz_ext()[i - 36]);
        }
    }
}

/// Build the uncompressed archive of one bundle: the metadata document
/// entry, one entry per captured file, and the end blocks.
///
/// Building fails, with nothing but the error to show for it, when the
/// zone name holds a control byte or a captured file overflows its
/// archive fields.
pub fn build_bundle_tar(
    md: &ZoneBundleMetadata,
    extras: &Vec<BundleFile>,
    mtime: u64,
) -> (r: Result<Vec<u8>, BundleError>)
    requires
        md.time_created.wf(),
        mtime < OCTAL11_LIMIT,
    ensures
        r matches Ok(t) ==> {
            &&& plain_name(md.id.zone_name@)
            &&& extras_fit(extras@)
            &&& t@ == spec_bundle_tar(spec_metadata_doc(*md), extras@, mtime as int)
        },
        r is Err ==> !(plain_name(md.id.zone_name@) && extras_fit(extras@)
            && spec_metadata_doc(*md).len() < OCTAL11_LIMIT),
{
    let doc = match render_metadata(md) {
        Ok(d) => d,
        Err(e) => {
            return Err(e);
        },
    };
    let mut out: Vec<u8> = Vec::new();
    let mname = lit_metadata_name_vec();
    match append_tar_entry(&mut out, mname.as_slice(), doc.as_slice(), mtime) {
        Ok(()) => (),
        Err(e) => {
            return Err(e);
        },
    }
    let mut i: usize = 0;
    while i < extras.len()
        invariant
            i <= extras@.len(),
            mtime < OCTAL11_LIMIT,
            forall|q: int|
                0 <= q < i ==> (#[trigger] extras@[q]).name@.len() <= 100
                    && extras@[q].contents@.len() < OCTAL11_LIMIT,
            out@ == spec_tar_entry(lit_metadata_name(), spec_metadata_doc(*md), mtime as int)
                + spec_extra_entries(extras@.take(i as int), mtime as int),
        decreases extras@.len() - i,
    {
        proof {
            assert(extras@.take(i as int + 1).drop_last() =~= extras@.take(i as int));
            assert(extras@.take(i as int + 1).last() == extras@[i as int]);
        }
        match append_tar_entry(
            &mut out,
            extras[i].name.as_slice(),
            extras[i].contents.as_slice(),
            mtime,
        ) {
            Ok(()) => (),
            Err(e) => {
                return Err(e);
            },
        }
        proof {
            assert(out@ =~= spec_tar_entry(
                lit_metadata_name(),
                spec_metadata_doc(*md),
                mtime as int,
            ) + spec_extra_entries(extras@.take(i as int + 1), mtime as int));
        }
        i += 1;
    }
    append_tar_end(&mut out);
    proof {
        assert(extras@.take(i as int) =~= extras@);
        assert(out@ =~= spec_bundle_tar(spec_metadata_doc(*md), extras@, mtime as int));
    }
    Ok(out)
}

/// Build the compressed archive of one bundle, and the file name it is
/// stored under.
pub fn create_bundle_archive(
    md: &ZoneBundleMetadata,
    extras: &Vec<BundleFile>,
    mtime: u64,
) -> (r: Result<(Vec<u8>, Vec<u8>), BundleError>)
    requires
        md.time_created.wf(),
        mtime < OCTAL11_LIMIT,
    ensures
        r matches Ok(p) ==> {
            &&& p.1@ == spec_bundle_filename(md.id.bundle_id)
            &&& p.0@ == gzip_of(
                spec_bundle_filename(md.id.bundle_id),
                spec_bundle_tar(spec_metadata_doc(*md), extras@, mtime as int),
            )
        },
        r is Err ==> !(plain_name(md.id.zone_name@) && extras_fit(extras@)
            && spec_metadata_doc(*md).len() < OCTAL11_LIMIT),
{
    let tar = match build_bundle_tar(md, extras, mtime) {
        Ok(t) => t,
        Err(e) => {
            return Err(e);
        },
    };
    let fname = bundle_filename(md.id.bundle_id);
    proof {
        lemma_filename_no_nul(md.id.bundle_id);
    }
    let gz = gzip_compress(fname.as_slice(), tar.as_slice());
    Ok((gz, fname))
}

/// Recover the metadata record of a stored bundle archive.
///
/// Whatever comes back re-renders exactly: a returned record's document
/// is byte-for-byte the document inside the archive. And every archive
/// this module built for a well-formed record with a simple zone name
/// gives that record back.
pub fn extract_bundle_metadata(archive_gz: &[u8]) -> (r: Option<ZoneBundleMetadata>)
    ensures
        r matches Some(m) ==> m.time_created.wf() && plain_name(m.id.zone_name@),
        forall|gzname: Seq<u8>, doc: Seq<u8>, mtime: int, rest: Seq<u8>|
            archive_gz@ == #[trigger] gzip_of(
                gzname,
                spec_tar_entry(lit_metadata_name(), doc, mtime) + rest,
            ) && doc.len() < OCTAL11_LIMIT && 0 <= mtime < OCTAL11_LIMIT ==> (r matches Some(m)
                ==> spec_metadata_doc(m) == doc),
        forall|gzname: Seq<u8>, md: ZoneBundleMetadata, mtime: int, rest: Seq<u8>|
            archive_gz@ == #[trigger] gzip_of(
                gzname,
                spec_tar_entry(lit_metadata_name(), spec_metadata_doc(md), mtime) + rest,
            ) && md.wf() && crate::toml_meta::simple_name(md.id.zone_name@)
                && spec_metadata_doc(md).len() < OCTAL11_LIMIT && 0 <= mtime
                < OCTAL11_LIMIT ==> (r matches Some(m) && m.id.zone_name@
                == md.id.zone_name@ && m.id.bundle_id == md.id.bundle_id && m.time_created
                == md.time_created && m.version == md.version && m.cause == md.cause),
{
    let tar = match gzip_decompress(archive_gz) {
        Some(t) => t,
        None => {
            return None;
        },
    };
    let mname = lit_metadata_name_vec();
    let doc = match crate::archive::find_tar_entry(tar.as_slice(), mname.as_slice()) {
        Some(d) => d,
        None => {
            return None;
        },
    };
    parse_metadata(doc.as_slice())
}

/// Whether a bundle matches a listing filter: no filter matches every
/// bundle, and a filter matches any zone name that contains it.
pub fn bundle_matches_filter(md: &ZoneBundleMetadata, filter: Option<&Vec<u8>>) -> (r: bool)
    ensures
        r == match filter {
            None => true,
            Some(f) => contains_seq(md.id.zone_name@, f@),
        },
{
    match filter {
        None => true,
        Some(f) => contains_bytes(md.id.zone_name.as_slice(), f.as_slice()),
    }
}

/// Whether an archived log file belongs to a service: the file is a
/// managed service log — its name begins with the service-manager prefix
/// of either stack and mentions the log suffix — and names the service.
pub fn archived_log_file_matches(file_name: &[u8], svc_name: &[u8]) -> (r: bool)
    ensures
        r == ((is_prefix(lit_oxide_prefix(), file_name@) || is_prefix(
            lit_illumos_prefix(),
            file_name@,
        )) && contains_seq(file_name@, lit_log_infix()) && contains_seq(file_name@, svc_name@)),
{
    let p1 = lit_oxide_prefix_vec();
    let p2 = lit_illumos_prefix_vec();
    let inf = lit_log_infix_vec();
    (starts_with(file_name, p1.as_slice()) || starts_with(file_name, p2.as_slice()))
        && contains_bytes(file_name, inf.as_slice()) && contains_bytes(file_name, svc_name)
}

/// Whether two metadata records carry the same values.
pub fn metadata_same(a: &ZoneBundleMetadata, b: &ZoneBundleMetadata) -> (r: bool)
    ensures
        r == (a.id.zone_name@ == b.id.zone_name@ && a.id.bundle_id == b.id.bundle_id
            && a.time_created == b.time_created && a.version == b.version && a.cause
            == b.cause),
{
    bytes_eq(a.id.zone_name.as_slice(), b.id.zone_name.as_slice()) && a.id.bundle_id
        == b.id.bundle_id && !a.time_created.lt(&b.time_created) && !b.time_created.lt(
        &a.time_created,
    ) && a.version == b.version && a.cause == b.cause
}

/// Whether a byte is ASCII whitespace.
pub open spec fn is_ws(b: u8) -> bool {
    b == 0x20 || b == 0x09 || b == 0x0a || b == 0x0c || b == 0x0d
}

/// The first position at or after `i` that is not whitespace.
pub open spec fn spec_skip_ws(s: Seq<u8>, i: int) -> int
    decreases s.len() - i,
{
    if i < 0 || i >= s.len() || !is_ws(s[i]) {
        i
    } else {
        spec_skip_ws(s, i + 1)
    }
}

/// The first position at or after `i` that is whitespace, or the end.
pub open spec fn spec_token_end(s: Seq<u8>, i: int) -> int
    decreases s.len() - i,
{
    if i < 0 || i >= s.len() || is_ws(s[i]) {
        i
    } else {
        spec_token_end(s, i + 1)
    }
}

/// Skip whitespace from position `i`.
fn skip_ws(s: &[u8], i: usize) -> (j: usize)
    requires
        i <= s@.len(),
    ensures
        j == spec_skip_ws(s@, i as int),
        i <= j <= s@.len(),
{
    let n = s.len();
    let mut j = i;
    while j < n && (s[j] == 0x20 || s[j] == 0x09 || s[j] == 0x0a || s[j] == 0x0c || s[j]
        == 0x0d)
        invariant
            i <= j <= n,
            n == s@.len(),
            spec_skip_ws(s@, i as int) == spec_skip_ws(s@, j as int),
        decreases n - j,
    {
        j += 1;
    }
    j
}

/// Find the end of the token that starts at `i`.
fn token_end(s: &[u8], i: usize) -> (j: usize)
    requires
        i <= s@.len(),
    ensures
        j == spec_token_end(s@, i as int),
        i <= j <= s@.len(),
{
    let n = s.len();
    let mut j = i;
    while j < n && !(s[j] == 0x20 || s[j] == 0x09 || s[j] == 0x0a || s[j] == 0x0c || s[j]
        == 0x0d)
        invariant
            i <= j <= n,
            n == s@.len(),
            spec_token_end(s@, i as int) == spec_token_end(s@, j as int),
        decreases n - j,
    {
        j += 1;
    }
    j
}

/// The first whitespace-separated token of the disk-usage output, as the
/// positions that bound it.
pub open spec fn spec_first_token(s: Seq<u8>) -> (int, int) {
    let start = spec_skip_ws(s, 0);
    (start, spec_token_end(s, start))
}

/// Parse the disk-usage command's output: its first token, read as a
/// number of blocks, scaled by the block size and saturating at the
/// largest representable value.
///
/// Parsing fails exactly when there is no token or the token is not a
/// number that fits.
pub fn parse_du_stdout(s: &[u8], block_size: u64) -> (r: Result<u64, BundleError>)
    ensures
        ({
            let (start, end) = spec_first_token(s@);
            let tok = s@.subrange(start, end);
            match r {
                Ok(v) => {
                    &&& end > start
                    &&& all_digits(tok)
                    &&& dec_value(tok) <= u64::MAX
                    &&& v == if dec_value(tok) * block_size <= u64::MAX {
                        dec_value(tok) * block_size
                    } else {
                        u64::MAX as int
                    }
                },
                Err(e) => {
                    &&& e == BundleError::Cleanup
                    &&& !(end > start && all_digits(tok) && dec_value(tok) <= u64::MAX)
                },
            }
        }),
{
    let start = skip_ws(s, 0);
    let end = token_end(s, start);
    if end == start {
        return Err(BundleError::Cleanup);
    }
    let tok = vstd::slice::slice_subrange(s, start, end);
    let v = match parse_u64_dec(tok) {
        Some(v) => v,
        None => {
            return Err(BundleError::Cleanup);
        },
    };
    proof {
        assert((v as int) * (block_size as int) <= (u64::MAX as int) * (u64::MAX as int))
            by (nonlinear_arith)
            requires
                0 <= v <= u64::MAX,
                0 <= block_size <= u64::MAX,
        ;
        assert((u64::MAX as int) * (u64::MAX as int) < u128::MAX as int);
    }
    let wide: u128 = (v as u128) * (block_size as u128);
    let scaled: u64 = if wide > 0xffff_ffff_ffff_ffffu128 {
        u64::MAX
    } else {
        wide as u64
    };
    Ok(scaled)
}

/// Parse the quota command's output: a quota column and an available
/// column. A dash or zero quota means no quota is set, and the available
/// space is reported; a malformed quota column also falls back to the
/// available space, which itself must be a number.
pub fn parse_zfs_quota_stdout(s: &[u8]) -> (r: Result<u64, BundleError>)
    ensures
        ({
            let start1 = spec_skip_ws(s@, 0);
            let end1 = spec_token_end(s@, start1);
            let start2 = spec_skip_ws(s@, end1);
            let end2 = spec_token_end(s@, start2);
            let quota = s@.subrange(start1, end1);
            let avail = s@.subrange(start2, end2);
            match r {
                Ok(v) => {
                    &&& end1 > start1
                    &&& end2 > start2
                    &&& all_digits(avail)
                    &&& dec_value(avail) <= u64::MAX
                    &&& v == if quota =~= seq![0x2du8] || quota =~= seq![0x30u8] {
                        dec_value(avail)
                    } else if all_digits(quota) && dec_value(quota) <= u64::MAX {
                        dec_value(quota)
                    } else {
                        dec_value(avail)
                    }
                },
                Err(e) => {
                    &&& e == BundleError::Cleanup
                    &&& !(end1 > start1 && end2 > start2 && all_digits(avail) && dec_value(
                        avail,
                    ) <= u64::MAX)
                },
            }
        }),
{
    let start1 = skip_ws(s, 0);
    let end1 = token_end(s, start1);
    if end1 == start1 {
        return Err(BundleError::Cleanup);
    }
    let start2 = skip_ws(s, end1);
    let end2 = token_end(s, start2);
    if end2 == start2 {
        return Err(BundleError::Cleanup);
    }
    let quota = vstd::slice::slice_subrange(s, start1, end1);
    let avail_tok = vstd::slice::slice_subrange(s, start2, end2);
    let avail = match parse_u64_dec(avail_tok) {
        Some(v) => v,
        None => {
            return Err(BundleError::Cleanup);
        },
    };
    let dash = quota.len() == 1 && quota[0] == 0x2d;
    let zero = quota.len() == 1 && quota[0] == 0x30;
    if dash || zero {
        proof {
            assert(s@.subrange(start1 as int, end1 as int) =~= if dash {
                seq![0x2du8]
            } else {
                seq![0x30u8]
            });
        }
        return Ok(avail);
    }
    proof {
        let q = s@.subrange(start1 as int, end1 as int);
        assert(!(q =~= seq![0x2du8]) && !(q =~= seq![0x30u8])) by {
            assert(q.len() == end1 - start1);
            if q.len() == 1 {
                assert(q[0] == s@[start1 as int]);
            }
        }
    }
    match parse_u64_dec(quota) {
        Some(v) => Ok(v),
        None => Ok(avail),
    }
}

} // verus!
