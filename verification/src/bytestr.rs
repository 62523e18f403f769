//! Byte-string helpers: equality, prefix and substring tests, and decimal
//! rendering and parsing, all specified over sequence views.

use vstd::prelude::*;

verus! {

/// Whether `p` is a prefix of `s`.
pub open spec fn is_prefix(p: Seq<u8>, s: Seq<u8>) -> bool {
    p.len() <= s.len() && s.subrange(0, p.len() as int) == p
}

/// Whether `needle` occurs in `hay` as a contiguous run.
pub open spec fn contains_seq(hay: Seq<u8>, needle: Seq<u8>) -> bool {
    exists|i: int|
        0 <= i && i + needle.len() <= hay.len() && #[trigger] hay.subrange(i, i + needle.len())
            == needle
}

/// Whether the two byte strings hold the same bytes.
pub fn bytes_eq(a: &[u8], b: &[u8]) -> (r: bool)
    ensures
        r == (a@ == b@),
{
    if a.len() != b.len() {
        proof {
            assert(a@.len() != b@.len());
        }
        return false;
    }
    let mut i: usize = 0;
    while i < a.len()
        invariant
            i <= a@.len(),
            a@.len() == b@.len(),
            forall|q: int| 0 <= q < i ==> a@[q] == b@[q],
        decreases a@.len() - i,
    {
        if a[i] != b[i] {
            return false;
        }
        i += 1;
    }
    proof {
        assert(a@ =~= b@);
    }
    true
}

/// Whether `s` starts with `p`.
pub fn starts_with(s: &[u8], p: &[u8]) -> (r: bool)
    ensures
        r == is_prefix(p@, s@),
{
    if p.len() > s.len() {
        return false;
    }
    let mut i: usize = 0;
    while i < p.len()
        invariant
            i <= p@.len(),
            p@.len() <= s@.len(),
            forall|q: int| 0 <= q < i ==> s@[q] == p@[q],
        decreases p@.len() - i,
    {
        if s[i] != p[i] {
            proof {
                assert(s@.subrange(0, p@.len() as int)[i as int] == s@[i as int]);
            }
            return false;
        }
        i += 1;
    }
    proof {
        assert(s@.subrange(0, p@.len() as int) =~= p@);
    }
    true
}

/// Whether the bytes of `s` starting at `at` are exactly `p`.
pub fn matches_at(s: &[u8], at: usize, p: &[u8]) -> (r: bool)
    requires
        at + p@.len() <= s@.len(),
    ensures
        r == (s@.subrange(at as int, at + p@.len()) == p@),
{
    let n = s.len();
    let mut i: usize = 0;
    while i < p.len()
        invariant
            i <= p@.len(),
            at + p@.len() <= s@.len(),
            n == s@.len(),
            forall|q: int| 0 <= q < i ==> s@[at + q] == p@[q],
        decreases p@.len() - i,
    {
        if s[at + i] != p[i] {
            proof {
                assert(s@.subrange(at as int, at + p@.len())[i as int] == s@[at + i]);
            }
            return false;
        }
        i += 1;
    }
    proof {
        assert(s@.subrange(at as int, at + p@.len()) =~= p@);
    }
    true
}

/// Whether `needle` occurs anywhere in `hay`.
pub fn contains_bytes(hay: &[u8], needle: &[u8]) -> (r: bool)
    ensures
        r == contains_seq(hay@, needle@),
{
    if needle.len() > hay.len() {
        return false;
    }
    let last: usize = hay.len() - needle.len();
    let mut i: usize = 0;
    loop
        invariant
            needle@.len() <= hay@.len(),
            last == hay@.len() - needle@.len(),
            i <= last,
            forall|q: int|
                0 <= q < i ==> #[trigger] hay@.subrange(q, q + needle@.len()) != needle@,
        decreases last - i,
    {
        if matches_at(hay, i, needle) {
            return true;
        }
        if i == last {
            proof {
                assert forall|q: int|
                    0 <= q && q + needle@.len() <= hay@.len() implies #[trigger] hay@.subrange(
                    q,
                    q + needle@.len(),
                ) != needle@ by {
                    assert(q <= last);
                }
            }
            return false;
        }
        i += 1;
    }
}

/// All bytes of `s` are ASCII decimal digits.
pub open spec fn all_digits(s: Seq<u8>) -> bool {
    forall|i: int| 0 <= i < s.len() ==> 0x30 <= #[trigger] s[i] <= 0x39
}

/// The number a string of decimal digits denotes.
pub open spec fn dec_value(s: Seq<u8>) -> int
    decreases s.len(),
{
    if s.len() == 0 {
        0
    } else {
        dec_value(s.drop_last()) * 10 + (s.last() - 0x30)
    }
}

/// The canonical decimal rendering of a number: no leading zeroes, except
/// that zero itself renders as one zero digit.
pub open spec fn dec_of(n: int) -> Seq<u8>
    decreases n,
{
    if n <= 0 {
        seq![0x30u8]
    } else if n < 10 {
        seq![(0x30 + n) as u8]
    } else {
        dec_of(n / 10).push((0x30 + n % 10) as u8)
    }
}

/// A digit string denotes a non-negative number.
pub proof fn lemma_dec_value_nonneg(s: Seq<u8>)
    requires
        all_digits(s),
    ensures
        dec_value(s) >= 0,
    decreases s.len(),
{
    if s.len() > 0 {
        assert(all_digits(s.drop_last())) by {
            assert(forall|i: int|
                0 <= i < s.drop_last().len() ==> s.drop_last()[i] == s[i]);
        }
        lemma_dec_value_nonneg(s.drop_last());
    }
}

/// Every prefix of a digit string denotes at most what the whole denotes.
pub proof fn lemma_dec_value_prefix(s: Seq<u8>, i: int)
    requires
        all_digits(s),
        0 <= i <= s.len(),
    ensures
        dec_value(s.take(i)) <= dec_value(s),
    decreases s.len() - i,
{
    if i < s.len() {
        lemma_dec_value_prefix(s, i + 1);
        let t = s.take(i + 1);
        assert(t.drop_last() =~= s.take(i));
        assert(t.last() == s[i]);
        lemma_dec_value_nonneg(s.take(i));
        assert(dec_value(t) == dec_value(s.take(i)) * 10 + (s[i] - 0x30));
        assert(dec_value(s.take(i)) <= dec_value(s.take(i)) * 10) by (nonlinear_arith)
            requires
                dec_value(s.take(i)) >= 0,
        ;
    } else {
        assert(s.take(i) =~= s);
    }
}

/// Render a number in decimal, appending onto `out`.
pub fn push_dec_u64(n: u64, out: &mut Vec<u8>)
    ensures
        final(out)@ == old(out)@ + dec_of(n as int),
    decreases n,
{
    if n < 10 {
        out.push(0x30 + (n as u8));
        proof {
            assert(out@ =~= old(out)@ + dec_of(n as int));
        }
    } else {
        push_dec_u64(n / 10, out);
        out.push(0x30 + ((n % 10) as u8));
        proof {
            assert(out@ =~= old(out)@ + dec_of(n as int));
        }
    }
}

/// Render a number in decimal as a fresh byte string.
pub fn dec_u64(n: u64) -> (r: Vec<u8>)
    ensures
        r@ == dec_of(n as int),
{
    let mut out: Vec<u8> = Vec::new();
    push_dec_u64(n, &mut out);
    proof {
        assert(out@ =~= dec_of(n as int));
    }
    out
}

/// Parse an unsigned decimal number.
///
/// Returns the denoted value exactly when the input is non-empty, holds
/// only decimal digits, and denotes a value that fits in 64 bits.
pub fn parse_u64_dec(s: &[u8]) -> (r: Option<u64>)
    ensures
        match r {
            Some(v) => {
                &&& s@.len() > 0
                &&& all_digits(s@)
                &&& v == dec_value(s@)
            },
            None => !(s@.len() > 0 && all_digits(s@) && dec_value(s@) <= u64::MAX),
        },
{
    if s.len() == 0 {
        return None;
    }
    let mut acc: u64 = 0;
    let mut i: usize = 0;
    while i < s.len()
        invariant
            0 < s@.len(),
            i <= s@.len(),
            all_digits(s@.take(i as int)),
            acc == dec_value(s@.take(i as int)),
        decreases s@.len() - i,
    {
        let c = s[i];
        if c < 0x30 || c > 0x39 {
            proof {
                assert(s@[i as int] == c);
            }
            return None;
        }
        let d: u64 = (c - 0x30) as u64;
        if acc > u64::MAX / 10 || (acc == u64::MAX / 10 && d > u64::MAX % 10) {
            proof {
                assert(all_digits(s@.take(i as int + 1))) by {
                    assert(forall|q: int|
                        0 <= q < i ==> s@.take(i as int + 1)[q] == s@.take(i as int)[q]);
                    assert(s@.take(i as int + 1)[i as int] == c);
                }
                assert(s@.take(i as int + 1).drop_last() =~= s@.take(i as int));
                assert(dec_value(s@.take(i as int + 1)) == acc * 10 + d);
                assert(acc * 10 + d > u64::MAX) by (nonlinear_arith)
                    requires
                        acc > u64::MAX / 10 || (acc == u64::MAX / 10 && d > u64::MAX % 10),
                        0 <= d <= 9,
                        acc >= 0,
                        u64::MAX == 0xffff_ffff_ffff_ffff,
                ;
                if all_digits(s@) {
                    lemma_dec_value_prefix(s@, i as int + 1);
                }
            }
            return None;
        }
        proof {
            assert(acc * 10 + d <= u64::MAX) by (nonlinear_arith)
                requires
                    acc <= u64::MAX / 10,
                    acc == u64::MAX / 10 ==> d <= u64::MAX % 10,
                    0 <= d <= 9,
                    0 <= acc,
                    u64::MAX == 0xffff_ffff_ffff_ffff,
            ;
            assert(all_digits(s@.take(i as int + 1))) by {
                assert(forall|q: int|
                    0 <= q < i ==> s@.take(i as int + 1)[q] == s@.take(i as int)[q]);
                assert(s@.take(i as int + 1)[i as int] == c);
            }
            assert(s@.take(i as int + 1).drop_last() =~= s@.take(i as int));
        }
        acc = acc * 10 + d;
        i += 1;
    }
    proof {
        assert(s@.take(i as int) =~= s@);
    }
    Some(acc)
}


/// Ten to the `k`-th power.
pub open spec fn pow10(k: nat) -> int
    decreases k,
{
    if k == 0 {
        1
    } else {
        10 * pow10((k - 1) as nat)
    }
}

/// The `k`-digit, zero-padded decimal rendering of `v`.
pub open spec fn dec_fixed(v: int, k: nat) -> Seq<u8>
    decreases k,
{
    if k == 0 {
        Seq::empty()
    } else {
        dec_fixed(v / 10, (k - 1) as nat).push((0x30 + v % 10) as u8)
    }
}

/// A fixed-width rendering has its width, holds only digits, and denotes
/// the value it was rendered from.
pub proof fn lemma_dec_fixed_value(v: int, k: nat)
    requires
        0 <= v < pow10(k),
    ensures
        dec_fixed(v, k).len() == k,
        all_digits(dec_fixed(v, k)),
        dec_value(dec_fixed(v, k)) == v,
    decreases k,
{
    if k == 0 {
    } else {
        assert(0 <= v / 10 < pow10((k - 1) as nat)) by (nonlinear_arith)
            requires
                0 <= v < pow10(k),
                pow10(k) == 10 * pow10((k - 1) as nat),
        ;
        lemma_dec_fixed_value(v / 10, (k - 1) as nat);
        let s = dec_fixed(v, k);
        let p = dec_fixed(v / 10, (k - 1) as nat);
        assert(s == p.push((0x30 + v % 10) as u8));
        assert(s.drop_last() =~= p);
        assert(all_digits(s)) by {
            assert(forall|i: int| 0 <= i < p.len() ==> s[i] == p[i]);
            assert(s[k - 1] == (0x30 + v % 10) as u8);
        }
        assert(dec_value(s) == dec_value(p) * 10 + (v % 10));
    }
}

/// The canonical decimal rendering holds only digits and denotes the
/// value it was rendered from.
pub proof fn lemma_dec_of_value(n: int)
    requires
        n >= 0,
    ensures
        dec_of(n).len() >= 1,
        all_digits(dec_of(n)),
        dec_value(dec_of(n)) == n,
    decreases n,
{
    if n < 10 {
        let s = dec_of(n);
        assert(s =~= seq![(0x30 + n) as u8]);
        assert(s.drop_last() =~= Seq::<u8>::empty());
        assert(s.last() == (0x30 + n) as u8);
        assert((0x30 + n) as u8 == 0x30 + n);
        assert(dec_value(s) == dec_value(s.drop_last()) * 10 + (s.last() - 0x30));
    } else {
        lemma_dec_of_value(n / 10);
        let s = dec_of(n);
        let p = dec_of(n / 10);
        assert(s == p.push((0x30 + n % 10) as u8));
        assert(s.drop_last() =~= p);
        assert(all_digits(s)) by {
            assert(forall|i: int| 0 <= i < p.len() ==> s[i] == p[i]);
            assert(s[s.len() - 1] == (0x30 + n % 10) as u8);
        }
        assert(dec_value(s) == dec_value(p) * 10 + (n % 10));
    }
}

/// Render `v` in exactly `k` zero-padded decimal digits, appending onto
/// `out`.
pub fn push_dec_fixed(v: u64, k: usize, out: &mut Vec<u8>)
    ensures
        final(out)@ == old(out)@ + dec_fixed(v as int, k as nat),
    decreases k,
{
    if k == 0 {
        proof {
            assert(final(out)@ =~= old(out)@ + dec_fixed(v as int, 0));
        }
    } else {
        push_dec_fixed(v / 10, k - 1, out);
        out.push(0x30 + ((v % 10) as u8));
        proof {
            assert(final(out)@ =~= old(out)@ + dec_fixed(v as int, k as nat));
        }
    }
}

/// Read exactly `k` decimal digits at position `i`.
///
/// The digits' value is returned together with the position just past
/// them; the read fails when fewer than `k` bytes remain or a byte is not
/// a digit.
pub fn parse_fixed_digits(s: &[u8], i: usize, k: usize) -> (r: Option<(u64, usize)>)
    requires
        k <= 9,
        i + k <= s@.len(),
    ensures
        match r {
            Some((v, j)) => {
                &&& j == i + k
                &&& all_digits(s@.subrange(i as int, i + k))
                &&& v == dec_value(s@.subrange(i as int, i + k))
            },
            None => !all_digits(s@.subrange(i as int, i + k)),
        },
{
    let n = s.len();
    let mut acc: u64 = 0;
    let mut q: usize = 0;
    while q < k
        invariant
            q <= k,
            k <= 9,
            n == s@.len(),
            i + k <= s@.len(),
            all_digits(s@.subrange(i as int, i + q)),
            acc == dec_value(s@.subrange(i as int, i + q)),
            acc < pow10(q as nat),
        decreases k - q,
    {
        let c = s[i + q];
        if c < 0x30 || c > 0x39 {
            proof {
                assert(s@.subrange(i as int, i + k)[q as int] == c);
            }
            return None;
        }
        let d: u64 = (c - 0x30) as u64;
        proof {
            lemma_pow10_small();
            assert(pow10((q + 1) as nat) == 10 * pow10(q as nat));
            assert(acc * 10 + d < pow10((q + 1) as nat)) by (nonlinear_arith)
                requires
                    acc < pow10(q as nat),
                    0 <= d <= 9,
                    pow10((q + 1) as nat) == 10 * pow10(q as nat),
            ;
            assert(pow10((q + 1) as nat) <= pow10(9)) by {
                lemma_pow10_increases((q + 1) as nat, 9);
            }
            let t1 = s@.subrange(i as int, i + q + 1);
            let t0 = s@.subrange(i as int, i + q);
            assert(t1.drop_last() =~= t0);
            assert(t1.last() == c);
            assert(all_digits(t1)) by {
                assert(forall|w: int| 0 <= w < t0.len() ==> t1[w] == t0[w]);
            }
        }
        acc = acc * 10 + d;
        q += 1;
    }
    Some((acc, i + k))
}

/// The powers of ten up to the ninth, spelled out.
pub proof fn lemma_pow10_small()
    ensures
        pow10(0) == 1,
        pow10(1) == 10,
        pow10(2) == 100,
        pow10(3) == 1000,
        pow10(4) == 10000,
        pow10(5) == 100000,
        pow10(6) == 1000000,
        pow10(7) == 10000000,
        pow10(8) == 100000000,
        pow10(9) == 1000000000,
{
    assert(pow10(0) == 1);
    assert(pow10(1) == 10);
    assert(pow10(2) == 100);
    assert(pow10(3) == 1000);
    assert(pow10(4) == 10000);
    assert(pow10(5) == 100000);
    assert(pow10(6) == 1000000);
    assert(pow10(7) == 10000000);
    assert(pow10(8) == 100000000);
    assert(pow10(9) == 1000000000);
}

/// Powers of ten grow with the exponent.
pub proof fn lemma_pow10_increases(a: nat, b: nat)
    requires
        a <= b,
    ensures
        pow10(a) <= pow10(b),
    decreases b,
{
    if a < b {
        lemma_pow10_increases(a, (b - 1) as nat);
        assert(pow10(b) == 10 * pow10((b - 1) as nat));
        assert(pow10((b - 1) as nat) >= 1) by {
            lemma_pow10_pos((b - 1) as nat);
        }
    }
}

/// Powers of ten are positive.
pub proof fn lemma_pow10_pos(k: nat)
    ensures
        pow10(k) >= 1,
    decreases k,
{
    if k > 0 {
        lemma_pow10_pos((k - 1) as nat);
    }
}


/// Whether a byte is an ASCII decimal digit.
pub open spec fn is_digit(b: u8) -> bool {
    0x30 <= b <= 0x39
}

/// Append all of `s` onto `out`.
pub fn push_bytes(out: &mut Vec<u8>, s: &[u8])
    ensures
        final(out)@ == old(out)@ + s@,
{
    let mut i: usize = 0;
    while i < s.len()
        invariant
            i <= s@.len(),
            out@ == old(out)@ + s@.take(i as int),
        decreases s@.len() - i,
    {
        proof {
            assert(s@.take(i as int + 1).drop_last() =~= s@.take(i as int));
            assert(s@.take(i as int + 1).last() == s@[i as int]);
            assert(old(out)@ + s@.take(i as int + 1) =~= (old(out)@ + s@.take(i as int)).push(
                s@[i as int],
            ));
        }
        out.push(s[i]);
        i += 1;
    }
    proof {
        assert(s@.take(i as int) =~= s@);
        assert(out@ =~= old(out)@ + s@);
    }
}

/// Whether a literal stands at position `at` of `s`.
pub fn lit_at(s: &[u8], at: usize, lit: &[u8]) -> (r: bool)
    ensures
        r == (at + lit@.len() <= s@.len() && s@.subrange(at as int, at + lit@.len()) == lit@),
{
    if at > s.len() || lit.len() > s.len() - at {
        return false;
    }
    matches_at(s, at, lit)
}

/// Read the maximal run of decimal digits at position `i`.
///
/// The run's value and the position just past it are returned when the
/// run is non-empty and its value fits in 64 bits; the position just past
/// the run is the input's end or holds a non-digit.
pub fn parse_dec_run(s: &[u8], i: usize) -> (r: Option<(u64, usize)>)
    requires
        i <= s@.len(),
    ensures
        match r {
            Some((v, j)) => {
                &&& i < j <= s@.len()
                &&& all_digits(s@.subrange(i as int, j as int))
                &&& (j == s@.len() || !is_digit(s@[j as int]))
                &&& v == dec_value(s@.subrange(i as int, j as int))
            },
            None => !(exists|j: int|
                i < j <= s@.len() && all_digits(#[trigger] s@.subrange(i as int, j))
                    && (j == s@.len() || !is_digit(s@[j])) && dec_value(
                    s@.subrange(i as int, j),
                ) <= u64::MAX),
        },
{
    let n = s.len();
    if i == n || s[i] < 0x30 || s[i] > 0x39 {
        proof {
            if i < s@.len() {
                assert forall|j: int|
                    i < j <= s@.len() implies !all_digits(#[trigger] s@.subrange(i as int, j))
                    by {
                    assert(s@.subrange(i as int, j)[0] == s@[i as int]);
                }
            }
        }
        return None;
    }
    let mut acc: u64 = 0;
    let mut q: usize = i;
    while q < n && s[q] >= 0x30 && s[q] <= 0x39
        invariant
            i <= q <= n,
            n == s@.len(),
            all_digits(s@.subrange(i as int, q as int)),
            acc == dec_value(s@.subrange(i as int, q as int)),
        decreases n - q,
    {
        let c = s[q];
        let d: u64 = (c - 0x30) as u64;
        proof {
            let t1 = s@.subrange(i as int, q as int + 1);
            let t0 = s@.subrange(i as int, q as int);
            assert(t1.drop_last() =~= t0);
            assert(t1.last() == c);
            assert(all_digits(t1)) by {
                assert(forall|w: int| 0 <= w < t0.len() ==> t1[w] == t0[w]);
            }
        }
        if acc > u64::MAX / 10 || (acc == u64::MAX / 10 && d > u64::MAX % 10) {
            proof {
                assert(acc * 10 + d > u64::MAX) by (nonlinear_arith)
                    requires
                        acc > u64::MAX / 10 || (acc == u64::MAX / 10 && d > u64::MAX % 10),
                        0 <= d <= 9,
                        acc >= 0,
                        u64::MAX == 0xffff_ffff_ffff_ffff,
                ;
                assert forall|j: int|
                    i < j <= s@.len() && all_digits(#[trigger] s@.subrange(i as int, j)) && (j
                        == s@.len() || !is_digit(s@[j])) implies dec_value(
                    s@.subrange(i as int, j),
                ) > u64::MAX by {
                    let run = s@.subrange(i as int, j);
                    assert(j > q) by {
                        if j <= q {
                            let t1 = s@.subrange(i as int, q as int + 1);
                            assert(t1[j - i] == s@[j]);
                            assert(is_digit(s@[j]));
                            assert(false);
                        }
                    }
                    assert(run.take(q + 1 - i) =~= s@.subrange(i as int, q as int + 1));
                    lemma_dec_value_prefix(run, q + 1 - i);
                }
            }
            return None;
        }
        proof {
            assert(acc * 10 + d <= u64::MAX) by (nonlinear_arith)
                requires
                    acc <= u64::MAX / 10,
                    acc == u64::MAX / 10 ==> d <= u64::MAX % 10,
                    0 <= d <= 9,
                    0 <= acc,
                    u64::MAX == 0xffff_ffff_ffff_ffff,
            ;
        }
        acc = acc * 10 + d;
        q += 1;
    }
    Some((acc, q))
}


/// A maximal digit run from a position is unique: two runs that both
/// stop at the end or at a non-digit stop at the same place.
pub proof fn lemma_digit_run_unique(s: Seq<u8>, i: int, j1: int, j2: int)
    requires
        0 <= i < j1 <= s.len(),
        i < j2 <= s.len(),
        all_digits(s.subrange(i, j1)),
        j1 == s.len() || !is_digit(s[j1]),
        all_digits(s.subrange(i, j2)),
        j2 == s.len() || !is_digit(s[j2]),
    ensures
        j1 == j2,
{
    if j1 < j2 {
        assert(s.subrange(i, j2)[j1 - i] == s[j1]);
        assert(is_digit(s[j1]));
    }
    if j2 < j1 {
        assert(s.subrange(i, j1)[j2 - i] == s[j2]);
        assert(is_digit(s[j2]));
    }
}

} // verus!


