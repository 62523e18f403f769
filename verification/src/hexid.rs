//! Hyphenated hexadecimal rendering and parsing of 128-bit bundle
//! identifiers, with a proof that parsing inverts rendering.

use vstd::prelude::*;

verus! {

/// Sixteen to the `k`-th power.
pub open spec fn pow16(k: nat) -> int
    decreases k,
{
    if k == 0 {
        1
    } else {
        16 * pow16((k - 1) as nat)
    }
}

/// Powers of sixteen are positive.
pub proof fn lemma_pow16_pos(k: nat)
    ensures
        pow16(k) >= 1,
    decreases k,
{
    if k > 0 {
        lemma_pow16_pos((k - 1) as nat);
    }
}

/// The lowercase hexadecimal digit of a nibble value.
pub open spec fn hex_digit(v: int) -> u8 {
    if v < 10 {
        (0x30 + v) as u8
    } else {
        (0x61 + (v - 10)) as u8
    }
}

/// The nibble value of a byte, when the byte is a lowercase hexadecimal
/// digit.
pub open spec fn hex_digit_value(b: u8) -> int {
    if 0x30 <= b <= 0x39 {
        b - 0x30
    } else {
        b - 0x61 + 10
    }
}

/// Whether a byte is a lowercase hexadecimal digit.
pub open spec fn is_hex_digit(b: u8) -> bool {
    (0x30 <= b <= 0x39) || (0x61 <= b <= 0x66)
}

/// All bytes of `s` are lowercase hexadecimal digits.
pub open spec fn all_hex_digits(s: Seq<u8>) -> bool {
    forall|i: int| 0 <= i < s.len() ==> is_hex_digit(#[trigger] s[i])
}

/// The value a string of hexadecimal digits denotes.
pub open spec fn hex_value(s: Seq<u8>) -> int
    decreases s.len(),
{
    if s.len() == 0 {
        0
    } else {
        hex_value(s.drop_last()) * 16 + hex_digit_value(s.last())
    }
}

/// The `k`-digit, zero-padded hexadecimal rendering of `v`.
pub open spec fn hex_fixed(v: int, k: nat) -> Seq<u8>
    decreases k,
{
    if k == 0 {
        Seq::empty()
    } else {
        hex_fixed(v / 16, (k - 1) as nat).push(hex_digit(v % 16))
    }
}

/// A fixed-width hexadecimal rendering has its width, holds only
/// hexadecimal digits, and denotes the value it was rendered from.
pub proof fn lemma_hex_fixed_value(v: int, k: nat)
    requires
        0 <= v < pow16(k),
    ensures
        hex_fixed(v, k).len() == k,
        all_hex_digits(hex_fixed(v, k)),
        hex_value(hex_fixed(v, k)) == v,
    decreases k,
{
    if k > 0 {
        assert(0 <= v / 16 < pow16((k - 1) as nat)) by (nonlinear_arith)
            requires
                0 <= v < pow16(k),
                pow16(k) == 16 * pow16((k - 1) as nat),
        ;
        lemma_hex_fixed_value(v / 16, (k - 1) as nat);
        let s = hex_fixed(v, k);
        let p = hex_fixed(v / 16, (k - 1) as nat);
        assert(s == p.push(hex_digit(v % 16)));
        assert(s.drop_last() =~= p);
        assert(is_hex_digit(hex_digit(v % 16)));
        assert(hex_digit_value(hex_digit(v % 16)) == v % 16);
        assert(all_hex_digits(s)) by {
            assert(forall|i: int| 0 <= i < p.len() ==> s[i] == p[i]);
            assert(s[k - 1] == hex_digit(v % 16));
        }
        assert(hex_value(s) == hex_value(p) * 16 + (v % 16));
    }
}

/// The hyphenated rendering of a 128-bit identifier: its thirty-two
/// hexadecimal digits in groups of eight, four, four, four and twelve,
/// separated by hyphens.
pub open spec fn spec_uuid_str(v: u128) -> Seq<u8> {
    let h = hex_fixed(v as int, 32);
    h.subrange(0, 8) + seq![0x2du8] + h.subrange(8, 12) + seq![0x2du8] + h.subrange(12, 16)
        + seq![0x2du8] + h.subrange(16, 20) + seq![0x2du8] + h.subrange(20, 32)
}

/// Render `v` in exactly `k` zero-padded hexadecimal digits, appending
/// onto `out`.
fn push_hex_fixed(v: u128, k: usize, out: &mut Vec<u8>)
    ensures
        final(out)@ == old(out)@ + hex_fixed(v as int, k as nat),
    decreases k,
{
    if k == 0 {
        proof {
            assert(final(out)@ =~= old(out)@ + hex_fixed(v as int, 0));
        }
    } else {
        push_hex_fixed(v / 16, k - 1, out);
        let nib: u8 = (v % 16) as u8;
        let c: u8 = if nib < 10 {
            0x30 + nib
        } else {
            0x61 + (nib - 10)
        };
        proof {
            assert(c == hex_digit(v as int % 16));
        }
        out.push(c);
        proof {
            assert(final(out)@ =~= old(out)@ + hex_fixed(v as int, k as nat));
        }
    }
}

/// Render a 128-bit identifier in its hyphenated form.
pub fn render_uuid(v: u128) -> (r: Vec<u8>)
    ensures
        r@ == spec_uuid_str(v),
        r@.len() == 36,
{
    let mut h: Vec<u8> = Vec::new();
    push_hex_fixed(v, 32, &mut h);
    proof {
        lemma_pow16_32();
        lemma_hex_fixed_value(v as int, 32);
    }
    let mut out: Vec<u8> = Vec::new();
    let mut i: usize = 0;
    while i < 36
        invariant
            i <= 36,
            h@ == hex_fixed(v as int, 32),
            h@.len() == 32,
            out@ == spec_uuid_str(v).take(i as int),
        decreases 36 - i,
    {
        proof {
            assert(spec_uuid_str(v).len() == 36);
            assert(spec_uuid_str(v).take(i as int + 1).drop_last() =~= spec_uuid_str(v).take(
                i as int,
            ));
        }
        if i == 8 || i == 13 || i == 18 || i == 23 {
            out.push(0x2d);
            proof {
                assert(spec_uuid_str(v)[i as int] == 0x2du8);
            }
        } else {
            let hi: usize = if i < 8 {
                i
            } else if i < 13 {
                i - 1
            } else if i < 18 {
                i - 2
            } else if i < 23 {
                i - 3
            } else {
                i - 4
            };
            out.push(h[hi]);
            proof {
                assert(spec_uuid_str(v)[i as int] == hex_fixed(v as int, 32)[hi as int]);
            }
        }
        i += 1;
    }
    proof {
        assert(spec_uuid_str(v).take(36) =~= spec_uuid_str(v));
    }
    out
}

/// Sixteen to the thirty-second power bounds a 128-bit value.
pub proof fn lemma_pow16_32()
    ensures
        pow16(32) == 0x1_0000_0000_0000_0000_0000_0000_0000_0000,
{
    assert(pow16(0) == 1);
    assert(pow16(1) == 0x10);
    assert(pow16(2) == 0x100);
    assert(pow16(3) == 0x1000);
    assert(pow16(4) == 0x1_0000);
    assert(pow16(5) == 0x10_0000);
    assert(pow16(6) == 0x100_0000);
    assert(pow16(7) == 0x1000_0000);
    assert(pow16(8) == 0x1_0000_0000);
    assert(pow16(9) == 0x10_0000_0000);
    assert(pow16(10) == 0x100_0000_0000);
    assert(pow16(11) == 0x1000_0000_0000);
    assert(pow16(12) == 0x1_0000_0000_0000);
    assert(pow16(13) == 0x10_0000_0000_0000);
    assert(pow16(14) == 0x100_0000_0000_0000);
    assert(pow16(15) == 0x1000_0000_0000_0000);
    assert(pow16(16) == 0x1_0000_0000_0000_0000);
    assert(pow16(17) == 0x10_0000_0000_0000_0000);
    assert(pow16(18) == 0x100_0000_0000_0000_0000);
    assert(pow16(19) == 0x1000_0000_0000_0000_0000);
    assert(pow16(20) == 0x1_0000_0000_0000_0000_0000);
    assert(pow16(21) == 0x10_0000_0000_0000_0000_0000);
    assert(pow16(22) == 0x100_0000_0000_0000_0000_0000);
    assert(pow16(23) == 0x1000_0000_0000_0000_0000_0000);
    assert(pow16(24) == 0x1_0000_0000_0000_0000_0000_0000);
    assert(pow16(25) == 0x10_0000_0000_0000_0000_0000_0000);
    assert(pow16(26) == 0x100_0000_0000_0000_0000_0000_0000);
    assert(pow16(27) == 0x1000_0000_0000_0000_0000_0000_0000);
    assert(pow16(28) == 0x1_0000_0000_0000_0000_0000_0000_0000);
    assert(pow16(29) == 0x10_0000_0000_0000_0000_0000_0000_0000);
    assert(pow16(30) == 0x100_0000_0000_0000_0000_0000_0000_0000);
    assert(pow16(31) == 0x1000_0000_0000_0000_0000_0000_0000_0000);
    assert(pow16(32) == 0x1_0000_0000_0000_0000_0000_0000_0000_0000);
}

/// What parsing a hyphenated identifier denotes: the hexadecimal value of
/// the thirty-two digits with the four hyphens removed, when the string
/// has that exact shape.
pub open spec fn spec_parse_uuid(s: Seq<u8>) -> Option<u128> {
    if s.len() == 36 && s[8] == 0x2du8 && s[13] == 0x2du8 && s[18] == 0x2du8 && s[23] == 0x2du8 {
        let h = s.subrange(0, 8) + s.subrange(9, 13) + s.subrange(14, 18) + s.subrange(19, 23)
            + s.subrange(24, 36);
        if all_hex_digits(h) {
            Some(hex_value(h) as u128)
        } else {
            None
        }
    } else {
        None
    }
}

/// Parsing a rendered identifier yields the identifier back.
pub proof fn lemma_uuid_roundtrip(v: u128)
    ensures
        spec_parse_uuid(spec_uuid_str(v)) == Some(v),
{
    lemma_pow16_32();
    lemma_hex_fixed_value(v as int, 32);
    let s = spec_uuid_str(v);
    let h0 = hex_fixed(v as int, 32);
    assert(s.len() == 36);
    assert(s[8] == 0x2du8);
    assert(s[13] == 0x2du8);
    assert(s[18] == 0x2du8);
    assert(s[23] == 0x2du8);
    let h = s.subrange(0, 8) + s.subrange(9, 13) + s.subrange(14, 18) + s.subrange(19, 23)
        + s.subrange(24, 36);
    assert(h =~= h0);
    assert(hex_value(h) == v);
}

/// Parse a hyphenated 128-bit identifier.
pub fn parse_uuid(s: &[u8]) -> (r: Option<u128>)
    ensures
        r == spec_parse_uuid(s@),
{
    if s.len() != 36 {
        return None;
    }
    if !(s[8] == 0x2d && s[13] == 0x2d && s[18] == 0x2d && s[23] == 0x2d) {
        return None;
    }
    let mut h: Vec<u8> = Vec::new();
    let ghost hs = s@.subrange(0, 8) + s@.subrange(9, 13) + s@.subrange(14, 18) + s@.subrange(
        19,
        23,
    ) + s@.subrange(24, 36);
    let mut i: usize = 0;
    while i < 36
        invariant
            i <= 36,
            s@.len() == 36,
            hs == s@.subrange(0, 8) + s@.subrange(9, 13) + s@.subrange(14, 18) + s@.subrange(
                19,
                23,
            ) + s@.subrange(24, 36),
            hs.len() == 32,
            h@.len() <= 32,
            h@ == hs.take(h@.len() as int),
            h@.len() == i - (if i > 8 {
                1int
            } else {
                0int
            }) - (if i > 13 {
                1int
            } else {
                0int
            }) - (if i > 18 {
                1int
            } else {
                0int
            }) - (if i > 23 {
                1int
            } else {
                0int
            }),
        decreases 36 - i,
    {
        if i == 8 || i == 13 || i == 18 || i == 23 {
        } else {
            let ghost pre = h@;
            h.push(s[i]);
            proof {
                assert(hs[pre.len() as int] == s@[i as int]);
                assert(h@ =~= hs.take(h@.len() as int));
            }
        }
        i += 1;
    }
    proof {
        assert(h@ =~= hs);
    }
    let mut acc: u128 = 0;
    let mut q: usize = 0;
    proof {
        lemma_pow16_32();
    }
    while q < 32
        invariant
            q <= 32,
            s@.len() == 36,
            s@[8] == 0x2du8,
            s@[13] == 0x2du8,
            s@[18] == 0x2du8,
            s@[23] == 0x2du8,
            hs == s@.subrange(0, 8) + s@.subrange(9, 13) + s@.subrange(14, 18) + s@.subrange(
                19,
                23,
            ) + s@.subrange(24, 36),
            h@.len() == 32,
            h@ == hs,
            all_hex_digits(h@.take(q as int)),
            acc == hex_value(h@.take(q as int)),
            acc < pow16(q as nat),
            pow16(32) == 0x1_0000_0000_0000_0000_0000_0000_0000_0000,
        decreases 32 - q,
    {
        let c = h[q];
        let d: u8 = if c >= 0x30 && c <= 0x39 {
            c - 0x30
        } else if c >= 0x61 && c <= 0x66 {
            c - 0x61 + 10
        } else {
            proof {
                assert(hs[q as int] == c);
                assert(!is_hex_digit(c));
                assert(!all_hex_digits(hs));
                assert(spec_parse_uuid(s@) is None);
            }
            return None;
        };
        proof {
            let t1 = h@.take(q as int + 1);
            let t0 = h@.take(q as int);
            assert(t1.drop_last() =~= t0);
            assert(t1.last() == c);
            assert(all_hex_digits(t1)) by {
                assert(forall|w: int| 0 <= w < t0.len() ==> t1[w] == t0[w]);
            }
            assert(hex_digit_value(c) == d);
            lemma_pow16_pos(q as nat);
            assert(pow16((q + 1) as nat) == 16 * pow16(q as nat));
            assert(acc * 16 + d < pow16((q + 1) as nat)) by (nonlinear_arith)
                requires
                    acc < pow16(q as nat),
                    0 <= d <= 15,
                    pow16((q + 1) as nat) == 16 * pow16(q as nat),
            ;
            lemma_pow16_increases((q + 1) as nat, 32);
        }
        acc = acc * 16 + (d as u128);
        q += 1;
    }
    proof {
        assert(h@.take(32) =~= h@);
    }
    Some(acc)
}

/// Powers of sixteen grow with the exponent.
proof fn lemma_pow16_increases(a: nat, b: nat)
    requires
        a <= b,
    ensures
        pow16(a) <= pow16(b),
    decreases b,
{
    if a < b {
        lemma_pow16_increases(a, (b - 1) as nat);
        lemma_pow16_pos((b - 1) as nat);
    }
}

} // verus!
