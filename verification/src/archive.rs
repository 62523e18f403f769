//! The bundle archive format: plain ustar entries, specified byte for
//! byte, with a reader that recovers an entry's contents.
//!
//! Each entry is a 512-byte header — name, octal mode, size and
//! modification time, a checksum over the header itself, the regular-file
//! type, and the ustar magic — followed by the contents padded to whole
//! blocks. The archive ends with two zero blocks.

use vstd::prelude::*;
use crate::bytestr::matches_at;
use crate::errors::BundleError;

verus! {

/// Eight to the `k`-th power.
pub open spec fn pow8(k: nat) -> int
    decreases k,
{
    if k == 0 {
        1
    } else {
        8 * pow8((k - 1) as nat)
    }
}

/// The largest value an eleven-digit octal field can hold, plus one.
pub const OCTAL11_LIMIT: u64 = 0x2_0000_0000;

/// Eight to the eleventh power, spelled out.
pub proof fn lemma_pow8_11()
    ensures
        pow8(7) == 0x20_0000,
        pow8(11) == 0x2_0000_0000,
{
    assert(pow8(0) == 1);
    assert(pow8(1) == 8);
    assert(pow8(2) == 0x40);
    assert(pow8(3) == 0x200);
    assert(pow8(4) == 0x1000);
    assert(pow8(5) == 0x8000);
    assert(pow8(6) == 0x4_0000);
    assert(pow8(7) == 0x20_0000);
    assert(pow8(8) == 0x100_0000);
    assert(pow8(9) == 0x800_0000);
    assert(pow8(10) == 0x4000_0000);
    assert(pow8(11) == 0x2_0000_0000);
}

/// The `k`-digit, zero-padded octal rendering of `v`.
pub open spec fn oct_fixed(v: int, k: nat) -> Seq<u8>
    decreases k,
{
    if k == 0 {
        Seq::empty()
    } else {
        oct_fixed(v / 8, (k - 1) as nat).push((0x30 + v % 8) as u8)
    }
}

/// The value a string of octal digits denotes.
pub open spec fn oct_value(s: Seq<u8>) -> int
    decreases s.len(),
{
    if s.len() == 0 {
        0
    } else {
        oct_value(s.drop_last()) * 8 + (s.last() - 0x30)
    }
}

/// All bytes of `s` are octal digits.
pub open spec fn all_oct_digits(s: Seq<u8>) -> bool {
    forall|i: int| 0 <= i < s.len() ==> 0x30 <= #[trigger] s[i] <= 0x37
}

/// A fixed-width octal rendering has its width, holds only octal digits,
/// and denotes the value it was rendered from.
pub proof fn lemma_oct_fixed_value(v: int, k: nat)
    requires
        0 <= v < pow8(k),
    ensures
        oct_fixed(v, k).len() == k,
        all_oct_digits(oct_fixed(v, k)),
        oct_value(oct_fixed(v, k)) == v,
    decreases k,
{
    if k > 0 {
        assert(0 <= v / 8 < pow8((k - 1) as nat)) by (nonlinear_arith)
            requires
                0 <= v < pow8(k),
                pow8(k) == 8 * pow8((k - 1) as nat),
        ;
        lemma_oct_fixed_value(v / 8, (k - 1) as nat);
        let s = oct_fixed(v, k);
        let p = oct_fixed(v / 8, (k - 1) as nat);
        assert(s.drop_last() =~= p);
        assert(all_oct_digits(s)) by {
            assert(forall|i: int| 0 <= i < p.len() ==> s[i] == p[i]);
            assert(s[k - 1] == (0x30 + v % 8) as u8);
        }
        assert(oct_value(s) == oct_value(p) * 8 + (v % 8));
    }
}

/// A sequence of `n` zero bytes.
pub open spec fn zeros(n: nat) -> Seq<u8> {
    Seq::new(n, |i: int| 0u8)
}

/// The padding that brings `n` bytes to a whole number of blocks.
pub open spec fn pad512(n: int) -> nat {
    (((512 - n % 512) % 512) as nat)
}

/// The sum of a sequence of bytes.
pub open spec fn sum_bytes(s: Seq<u8>) -> int
    decreases s.len(),
{
    if s.len() == 0 {
        0
    } else {
        sum_bytes(s.drop_last()) + s.last()
    }
}

/// An entry header with the given bytes in its checksum field: the name
/// padded to one hundred bytes, the octal mode of a read-only file, blank
/// owner fields, the octal size and modification time, the checksum
/// field, the regular-file type, the ustar magic and version, and blank
/// fields to the block's end.
pub open spec fn spec_header_with(
    name: Seq<u8>,
    size: int,
    mtime: int,
    ck: Seq<u8>,
) -> Seq<u8> {
    name + zeros((100 - name.len()) as nat)  // name
     + oct_fixed(0o444, 7) + seq![0u8]  // mode
     + zeros(8) + zeros(8)  // uid, gid
     + oct_fixed(size, 11) + seq![0u8]  // size
     + oct_fixed(mtime, 11) + seq![0u8]  // mtime
     + ck  // checksum field
     + seq![0x30u8]  // type: regular file
     + zeros(100)  // link name
     + seq![0x75u8, 0x73u8, 0x74u8, 0x61u8, 0x72u8, 0u8]  // magic
     + seq![0x30u8, 0x30u8]  // version
     + zeros(32) + zeros(32)  // owner names
     + zeros(8) + zeros(8)  // device numbers
     + zeros(155) + zeros(12)  // prefix, padding
}

/// The checksum a header carries: the byte sum of the header with the
/// checksum field read as eight spaces.
pub open spec fn spec_header_cksum(name: Seq<u8>, size: int, mtime: int) -> int {
    sum_bytes(spec_header_with(name, size, mtime, Seq::new(8, |i: int| 0x20u8)))
}

/// A finished entry header.
pub open spec fn spec_header(name: Seq<u8>, size: int, mtime: int) -> Seq<u8> {
    spec_header_with(
        name,
        size,
        mtime,
        oct_fixed(spec_header_cksum(name, size, mtime), 7) + seq![0u8],
    )
}

/// A whole entry: header, contents, and zero padding to the block's end.
pub open spec fn spec_tar_entry(name: Seq<u8>, data: Seq<u8>, mtime: int) -> Seq<u8> {
    spec_header(name, data.len() as int, mtime) + data + zeros(pad512(data.len() as int))
}

/// The two zero blocks that end an archive.
pub open spec fn spec_tar_end() -> Seq<u8> {
    zeros(1024)
}

/// Append `n` zero bytes onto `out`.
pub fn push_zeros(out: &mut Vec<u8>, n: usize)
    ensures
        final(out)@ == old(out)@ + zeros(n as nat),
{
    let mut i: usize = 0;
    while i < n
        invariant
            i <= n,
            out@ == old(out)@ + zeros(i as nat),
        decreases n - i,
    {
        out.push(0);
        proof {
            assert(out@ =~= old(out)@ + zeros(i as nat + 1));
        }
        i += 1;
    }
}

/// Append the `k`-digit octal rendering of `v` onto `out`.
fn push_oct_fixed(v: u64, k: usize, out: &mut Vec<u8>)
    ensures
        final(out)@ == old(out)@ + oct_fixed(v as int, k as nat),
    decreases k,
{
    if k == 0 {
        proof {
            assert(final(out)@ =~= old(out)@ + oct_fixed(v as int, 0));
        }
    } else {
        push_oct_fixed(v / 8, k - 1, out);
        out.push(0x30 + ((v % 8) as u8));
        proof {
            assert(final(out)@ =~= old(out)@ + oct_fixed(v as int, k as nat));
        }
    }
}

/// The sum of the bytes of `s`, which fits well within 32 bits for a
/// single header block.
fn sum_slice(s: &[u8]) -> (r: u64)
    requires
        s@.len() <= 512,
    ensures
        r == sum_bytes(s@),
        r <= s@.len() * 255,
{
    let n = s.len();
    let mut acc: u64 = 0;
    let mut i: usize = 0;
    while i < n
        invariant
            i <= n,
            n == s@.len(),
            n <= 512,
            acc == sum_bytes(s@.take(i as int)),
            acc <= i * 255,
        decreases n - i,
    {
        proof {
            let t1 = s@.take(i as int + 1);
            assert(t1.drop_last() =~= s@.take(i as int));
            assert(t1.last() == s@[i as int]);
        }
        acc = acc + (s[i] as u64);
        i += 1;
    }
    proof {
        assert(s@.take(n as int) =~= s@);
    }
    acc
}

/// Append an entry header carrying the given checksum-field bytes.
fn push_header_with(out: &mut Vec<u8>, name: &[u8], size: u64, mtime: u64, ck: &[u8])
    requires
        name@.len() <= 100,
        ck@.len() == 8,
    ensures
        final(out)@ == old(out)@ + spec_header_with(name@, size as int, mtime as int, ck@),
{
    crate::bytestr::push_bytes(out, name);
    push_zeros(out, 100 - name.len());
    push_oct_fixed(0o444, 7, out);
    out.push(0);
    push_zeros(out, 8);
    push_zeros(out, 8);
    push_oct_fixed(size, 11, out);
    out.push(0);
    push_oct_fixed(mtime, 11, out);
    out.push(0);
    crate::bytestr::push_bytes(out, ck);
    out.push(0x30);
    push_zeros(out, 100);
    out.push(0x75);
    out.push(0x73);
    out.push(0x74);
    out.push(0x61);
    out.push(0x72);
    out.push(0);
    out.push(0x30);
    out.push(0x30);
    push_zeros(out, 32);
    push_zeros(out, 32);
    push_zeros(out, 8);
    push_zeros(out, 8);
    push_zeros(out, 155);
    push_zeros(out, 12);
    proof {
        assert(final(out)@ =~= old(out)@ + spec_header_with(
            name@,
            size as int,
            mtime as int,
            ck@,
        ));
    }
}

/// Append one whole entry — header, contents and padding — onto `out`.
///
/// The entry is refused, and `out` left alone, when the name is longer
/// than its field or the contents or modification time overflow their
/// eleven-digit octal fields.
pub fn append_tar_entry(out: &mut Vec<u8>, name: &[u8], data: &[u8], mtime: u64) -> (r: Result<
    (),
    BundleError,
>)
    ensures
        match r {
            Ok(()) => {
                &&& name@.len() <= 100
                &&& data@.len() < OCTAL11_LIMIT
                &&& mtime < OCTAL11_LIMIT
                &&& final(out)@ == old(out)@ + spec_tar_entry(name@, data@, mtime as int)
            },
            Err(e) => {
                &&& *final(out) == *old(out)
                &&& !(name@.len() <= 100 && data@.len() < OCTAL11_LIMIT && mtime
                    < OCTAL11_LIMIT)
                &&& e matches BundleError::AddBundleData { .. }
            },
        },
{
    let data_len_ok = (data.len() as u64) < OCTAL11_LIMIT;
    if name.len() > 100 || !data_len_ok || mtime >= OCTAL11_LIMIT {
        return Err(
            BundleError::AddBundleData { tarball_path: crate::bytestr::dec_u64(0) },
        );
    }
    let size: u64 = data.len() as u64;
    // First lay the header out with spaces in the checksum field, to sum
    // it, then write the real header.
    let mut pre: Vec<u8> = Vec::new();
    let mut spaces: Vec<u8> = Vec::new();
    let mut k: usize = 0;
    while k < 8
        invariant
            k <= 8,
            spaces@ == Seq::new(k as nat, |i: int| 0x20u8),
        decreases 8 - k,
    {
        spaces.push(0x20);
        proof {
            assert(spaces@ =~= Seq::new(k as nat + 1, |i: int| 0x20u8));
        }
        k += 1;
    }
    push_header_with(&mut pre, name, size, mtime, spaces.as_slice());
    proof {
        lemma_oct_len(0o444, 7);
        lemma_oct_len(size as int, 11);
        lemma_oct_len(mtime as int, 11);
        assert(pre@ =~= spec_header_with(
            name@,
            size as int,
            mtime as int,
            Seq::new(8, |i: int| 0x20u8),
        ));
        assert(spec_header_with(
            name@,
            size as int,
            mtime as int,
            Seq::new(8, |i: int| 0x20u8),
        ).len() == 512);
    }
    let cksum = sum_slice(pre.as_slice());
    proof {
        lemma_pow8_11();
        assert(cksum < pow8(7));
    }
    let mut ckf: Vec<u8> = Vec::new();
    push_oct_fixed(cksum, 7, &mut ckf);
    ckf.push(0);
    proof {
        lemma_oct_fixed_value(cksum as int, 7);
        assert(ckf@ =~= oct_fixed(cksum as int, 7) + seq![0u8]);
        assert(ckf@.len() == 8);
    }
    push_header_with(out, name, size, mtime, ckf.as_slice());
    crate::bytestr::push_bytes(out, data);
    let pad: usize = (512 - (data.len() % 512)) % 512;
    push_zeros(out, pad);
    proof {
        assert(final(out)@ =~= old(out)@ + spec_tar_entry(name@, data@, mtime as int));
    }
    Ok(())
}

/// Append the two zero blocks that end an archive.
pub fn append_tar_end(out: &mut Vec<u8>)
    ensures
        final(out)@ == old(out)@ + spec_tar_end(),
{
    push_zeros(out, 1024);
}


/// Powers of eight are positive.
proof fn lemma_pow8_pos(k: nat)
    ensures
        pow8(k) >= 1,
    decreases k,
{
    if k > 0 {
        lemma_pow8_pos((k - 1) as nat);
    }
}

/// Powers of eight grow with the exponent.
proof fn lemma_pow8_increases(a: nat, b: nat)
    requires
        a <= b,
    ensures
        pow8(a) <= pow8(b),
    decreases b,
{
    if a < b {
        lemma_pow8_increases(a, (b - 1) as nat);
        lemma_pow8_pos((b - 1) as nat);
    }
}

/// Read an eleven-digit octal field.
fn parse_oct_field(s: &[u8], at: usize) -> (r: Option<u64>)
    requires
        at + 11 <= s@.len(),
    ensures
        match r {
            Some(v) => {
                &&& all_oct_digits(s@.subrange(at as int, at + 11))
                &&& v == oct_value(s@.subrange(at as int, at + 11))
                &&& v < OCTAL11_LIMIT
            },
            None => !all_oct_digits(s@.subrange(at as int, at + 11)),
        },
{
    let n = s.len();
    let mut acc: u64 = 0;
    let mut q: usize = 0;
    proof {
        lemma_pow8_11();
    }
    while q < 11
        invariant
            q <= 11,
            n == s@.len(),
            at + 11 <= s@.len(),
            all_oct_digits(s@.subrange(at as int, at as int + q)),
            acc == oct_value(s@.subrange(at as int, at as int + q)),
            acc < pow8(q as nat),
            pow8(11) == 0x2_0000_0000,
        decreases 11 - q,
    {
        let c = s[at + q];
        if c < 0x30 || c > 0x37 {
            proof {
                assert(s@.subrange(at as int, at + 11)[q as int] == c);
            }
            return None;
        }
        let d: u64 = (c - 0x30) as u64;
        proof {
            let t1 = s@.subrange(at as int, at as int + q + 1);
            let t0 = s@.subrange(at as int, at as int + q);
            assert(t1.drop_last() =~= t0);
            assert(t1.last() == c);
            assert(all_oct_digits(t1)) by {
                assert(forall|w: int| 0 <= w < t0.len() ==> t1[w] == t0[w]);
            }
            lemma_pow8_pos(q as nat);
            assert(pow8((q + 1) as nat) == 8 * pow8(q as nat));
            assert(acc * 8 + d < pow8((q + 1) as nat)) by (nonlinear_arith)
                requires
                    acc < pow8(q as nat),
                    0 <= d <= 7,
                    pow8((q + 1) as nat) == 8 * pow8(q as nat),
            ;
            lemma_pow8_increases((q + 1) as nat, 11);
        }
        acc = acc * 8 + d;
        q += 1;
    }
    Some(acc)
}

/// No canonical entry of this name stands at the archive's front.
pub open spec fn no_canonical(archive: Seq<u8>, name: Seq<u8>) -> bool {
    forall|data: Seq<u8>, mtime: int, rest: Seq<u8>|
        !(archive == #[trigger] (spec_tar_entry(name, data, mtime) + rest) && data.len()
            < OCTAL11_LIMIT && 0 <= mtime < OCTAL11_LIMIT)
}

/// A fixed-width octal rendering has its width, whatever the value.
proof fn lemma_oct_len(v: int, k: nat)
    ensures
        oct_fixed(v, k).len() == k,
    decreases k,
{
    if k > 0 {
        lemma_oct_len(v / 8, (k - 1) as nat);
    }
}

/// Where each field of a header block stands.
proof fn lemma_header_fields(name: Seq<u8>, size: int, mtime: int)
    requires
        name.len() <= 100,
    ensures
        spec_header(name, size, mtime).len() == 512,
        spec_header(name, size, mtime).subrange(0, name.len() as int) == name,
        name.len() < 100 ==> spec_header(name, size, mtime)[name.len() as int] == 0,
        spec_header(name, size, mtime).subrange(124, 135) == oct_fixed(size, 11),
{
    lemma_oct_len(0o444, 7);
    lemma_oct_len(size, 11);
    lemma_oct_len(mtime, 11);
    lemma_oct_len(spec_header_cksum(name, size, mtime), 7);
    let h = spec_header(name, size, mtime);
    assert(h.len() == 512);
    assert(h.subrange(0, name.len() as int) =~= name);
    if name.len() < 100 {
        assert(h[name.len() as int] == zeros((100 - name.len()) as nat)[0]);
    }
    assert(h.subrange(124, 135) =~= oct_fixed(size, 11));
}

/// What the front of a canonical archive holds: the header's fields, and
/// the contents just after the header block.
proof fn lemma_entry_front(
    archive: Seq<u8>,
    name: Seq<u8>,
    data: Seq<u8>,
    mtime: int,
    rest: Seq<u8>,
)
    requires
        name.len() <= 100,
        archive == spec_tar_entry(name, data, mtime) + rest,
    ensures
        archive.len() >= 512 + data.len(),
        archive.subrange(0, name.len() as int) == name,
        name.len() < 100 ==> archive[name.len() as int] == 0,
        archive.subrange(124, 135) == oct_fixed(data.len() as int, 11),
        archive.subrange(512, 512 + data.len() as int) == data,
{
    lemma_header_fields(name, data.len() as int, mtime);
    let h = spec_header(name, data.len() as int, mtime);
    assert(forall|i: int| 0 <= i < 512 ==> archive[i] == h[i]);
    assert(archive.subrange(0, name.len() as int) =~= h.subrange(0, name.len() as int));
    assert(archive.subrange(124, 135) =~= h.subrange(124, 135));
    assert(archive.subrange(512, 512 + data.len() as int) =~= data) by {
        assert(forall|w: int| 0 <= w < data.len() ==> archive[512 + w] == data[w]);
    }
}

/// Find the named entry in an archive and hand back its contents.
///
/// The reader walks the entries front to back. On any archive that
/// begins with an entry of this name, as the bundle writer lays one out,
/// the entry's exact contents come back.
pub fn find_tar_entry(archive: &[u8], name: &[u8]) -> (r: Option<Vec<u8>>)
    requires
        0 < name@.len() <= 100,
    ensures
        forall|data: Seq<u8>, mtime: int, rest: Seq<u8>|
            archive@ == #[trigger] (spec_tar_entry(name@, data, mtime) + rest) && data.len()
                < OCTAL11_LIMIT && 0 <= mtime < OCTAL11_LIMIT ==> (r matches Some(v) && v@
                == data),
        r matches Some(v) ==> exists|at: int|
            {
                &&& 0 <= at
                &&& at + 512 + v@.len() <= archive@.len()
                &&& #[trigger] archive@.subrange(at, at + name@.len() as int) == name@
                &&& v@ == archive@.subrange(at + 512, at + 512 + v@.len() as int)
            },
{
    let n = archive.len();
    let nm = name.len();
    let mut off: usize = 0;
    loop
        invariant
            off <= n,
            n == archive@.len(),
            nm == name@.len(),
            0 < nm <= 100,
            off > 0 ==> no_canonical(archive@, name@),
        decreases n - off,
    {
        if n < 512 || off > n - 512 {
            proof {
                if off == 0 {
                    assert forall|data: Seq<u8>, mtime: int, rest: Seq<u8>|
                        !(archive@ == #[trigger] (spec_tar_entry(name@, data, mtime) + rest)
                            && data.len() < OCTAL11_LIMIT && 0 <= mtime < OCTAL11_LIMIT) by {
                        if archive@ == spec_tar_entry(name@, data, mtime) + rest && data.len()
                            < OCTAL11_LIMIT && 0 <= mtime < OCTAL11_LIMIT {
                            lemma_entry_front(archive@, name@, data, mtime, rest);
                        }
                    }
                }
            }
            return None;
        }
        // Parse the size field.
        let size_opt = parse_oct_field(archive, off + 124);
        proof {
            if off == 0 && size_opt is None {
                assert forall|data: Seq<u8>, mtime: int, rest: Seq<u8>|
                    !(archive@ == #[trigger] (spec_tar_entry(name@, data, mtime) + rest)
                        && data.len() < OCTAL11_LIMIT && 0 <= mtime < OCTAL11_LIMIT) by {
                    if archive@ == spec_tar_entry(name@, data, mtime) + rest && data.len()
                        < OCTAL11_LIMIT && 0 <= mtime < OCTAL11_LIMIT {
                        lemma_entry_front(archive@, name@, data, mtime, rest);
                        lemma_pow8_11();
                        lemma_oct_fixed_value(data.len() as int, 11);
                    }
                }
            }
        }
        let size = match size_opt {
            Some(v) => v,
            None => {
                return None;
            },
        };
        // Does the name match?
        let name_matches = matches_at(archive, off, name) && (nm == 100 || archive[off + nm]
            == 0);
        if name_matches {
            if size > (n - off - 512) as u64 {
                proof {
                    if off == 0 {
                        assert forall|data: Seq<u8>, mtime: int, rest: Seq<u8>|
                            !(archive@ == #[trigger] (spec_tar_entry(name@, data, mtime) + rest)
                                && data.len() < OCTAL11_LIMIT && 0 <= mtime
                                < OCTAL11_LIMIT) by {
                            if archive@ == spec_tar_entry(name@, data, mtime) + rest
                                && data.len() < OCTAL11_LIMIT && 0 <= mtime < OCTAL11_LIMIT {
                                lemma_entry_front(archive@, name@, data, mtime, rest);
                                lemma_pow8_11();
                                lemma_oct_fixed_value(data.len() as int, 11);
                            }
                        }
                    }
                }
                return None;
            }
            let size_us = size as usize;
            let data = vstd::slice::slice_to_vec(
                vstd::slice::slice_subrange(archive, off + 512, off + 512 + size_us),
            );
            proof {
                if off == 0 {
                    assert forall|d: Seq<u8>, mtime: int, rest: Seq<u8>|
                        archive@ == #[trigger] (spec_tar_entry(name@, d, mtime) + rest)
                            && d.len() < OCTAL11_LIMIT && 0 <= mtime
                            < OCTAL11_LIMIT implies data@ == d by {
                        lemma_entry_front(archive@, name@, d, mtime, rest);
                        lemma_pow8_11();
                        lemma_oct_fixed_value(d.len() as int, 11);
                        assert(size == d.len());
                        assert(data@ =~= d);
                    }
                }
                assert(archive@.subrange(off as int, off as int + name@.len() as int)
                    == name@);
                assert(data@ == archive@.subrange(
                    off as int + 512,
                    off as int + 512 + data@.len() as int,
                ));
            }
            return Some(data);
        }
        // This entry is not the one: step past it, or give up when its
        // stated size runs off the archive's end.
        proof {
            if off == 0 {
                assert forall|data: Seq<u8>, mtime: int, rest: Seq<u8>|
                    !(archive@ == #[trigger] (spec_tar_entry(name@, data, mtime) + rest)
                        && data.len() < OCTAL11_LIMIT && 0 <= mtime < OCTAL11_LIMIT) by {
                    if archive@ == spec_tar_entry(name@, data, mtime) + rest && data.len()
                        < OCTAL11_LIMIT && 0 <= mtime < OCTAL11_LIMIT {
                        lemma_entry_front(archive@, name@, data, mtime, rest);
                    }
                }
            }
            assert(no_canonical(archive@, name@));
        }
        let blocks: u64 = 512 + ((size + 511) / 512) * 512;
        if blocks > (n - off) as u64 {
            return None;
        }
        off = off + (blocks as usize);
    }
}

} // verus!
