//! Byte-level text helpers: exact and case-insensitive string comparison,
//! decimal rendering and parsing, and the one conversion from bytes back to
//! `String` that the wire codec needs.

use vstd::prelude::*;
use vstd::string::StringSliceAdditionalSpecFns;
use vstd::utf8::encode_utf8_decode_utf8;
use vstd::utf8::decode_utf8;
use vstd::utf8::valid_utf8;

verus! {

/// Exact equality of two byte slices.
pub fn bytes_eq(a: &[u8], b: &[u8]) -> (r: bool)
    ensures
        r == (a@ == b@),
{
    if a.len() != b.len() {
        proof {
            assert(a@ != b@) by {
                assert(a@.len() != b@.len());
            }
        }
        return false;
    }
    let n = a.len();
    let mut i: usize = 0;
    while i < n
        invariant
            n == a@.len(),
            n == b@.len(),
            i <= n,
            forall|j: int| 0 <= j < i ==> a@[j] == b@[j],
        decreases n - i,
    {
        if a[i] != b[i] {
            return false;
        }
        i += 1;
    }
    proof {
        assert(a@ =~= b@);
    }
    true
}

/// Exact equality of two string slices, decided on their UTF-8 bytes.
pub fn str_eq(a: &str, b: &str) -> (r: bool)
    ensures
        r == (a@ == b@),
{
    let r = bytes_eq(a.as_bytes(), b.as_bytes());
    proof {
        if a.spec_bytes() == b.spec_bytes() {
            encode_utf8_decode_utf8(a@);
            encode_utf8_decode_utf8(b@);
        }
    }
    r
}

/// An ASCII upper-case letter folded to lower case; any other byte unchanged.
pub open spec fn lower_byte(b: u8) -> u8 {
    if 65 <= b && b <= 90 {
        (b + 32) as u8
    } else {
        b
    }
}

/// ASCII-case-insensitive equality of two byte sequences.
pub open spec fn case_insensitive_eq(a: Seq<u8>, b: Seq<u8>) -> bool {
    &&& a.len() == b.len()
    &&& forall|i: int| 0 <= i < a.len() ==> lower_byte(#[trigger] a[i]) == lower_byte(b[i])
}

/// ASCII-case-insensitive equality of two strings, decided on their UTF-8
/// bytes: the comparison the operation grammar uses.
pub fn str_eq_ignore_ascii_case(a: &str, b: &str) -> (r: bool)
    ensures
        r == case_insensitive_eq(a.spec_bytes(), b.spec_bytes()),
{
    let ab = a.as_bytes();
    let bb = b.as_bytes();
    if ab.len() != bb.len() {
        return false;
    }
    let n = ab.len();
    let mut i: usize = 0;
    while i < n
        invariant
            n == ab@.len(),
            n == bb@.len(),
            ab@ == a.spec_bytes(),
            bb@ == b.spec_bytes(),
            i <= n,
            forall|j: int| 0 <= j < i ==> lower_byte(#[trigger] ab@[j]) == lower_byte(bb@[j]),
        decreases n - i,
    {
        let x = ab[i];
        let y = bb[i];
        let xl = if 65 <= x && x <= 90 { x + 32 } else { x };
        let yl = if 65 <= y && y <= 90 { y + 32 } else { y };
        if xl != yl {
            return false;
        }
        i += 1;
    }
    true
}

/// Relies on `String::from_utf8` of std: it succeeds exactly on valid UTF-8
/// input and returns the string whose characters are that input's decoding.
#[verifier::external_body]
pub fn string_from_utf8(v: Vec<u8>) -> (r: Option<String>)
    ensures
        r is Some <==> valid_utf8(v@),
        r matches Some(s) ==> s@ == decode_utf8(v@),
{
    match String::from_utf8(v) {
        Ok(s) => Some(s),
        Err(_) => None,
    }
}

/// Bytes below 0x80 always form valid UTF-8 and decode to themselves.
pub proof fn lemma_ascii_bytes_valid_utf8(s: Seq<u8>)
    requires
        forall|i: int| 0 <= i < s.len() ==> #[trigger] s[i] < 128,
    ensures
        valid_utf8(s),
        decode_utf8(s).len() == s.len(),
        forall|i: int| 0 <= i < s.len() ==> #[trigger] decode_utf8(s)[i] == s[i] as char,
    decreases s.len(),
{
    if s.len() > 0 {
        let b = s[0];
        assert(vstd::utf8::is_leading_byte_width_1(b));
        assert(b & 0x7f == b) by (bit_vector)
            requires
                b < 128,
        ;
        assert(vstd::utf8::valid_first_scalar(s));
        assert(vstd::utf8::decode_first_scalar(s) == b as u32);
        let rest = vstd::utf8::pop_first_scalar(s);
        assert(rest =~= s.skip(1));
        assert(forall|i: int| 0 <= i < rest.len() ==> #[trigger] rest[i] < 128);
        lemma_ascii_bytes_valid_utf8(rest);
        assert(decode_utf8(s) == seq![b as char] + decode_utf8(rest));
        assert(forall|i: int|
            0 <= i < s.len() ==> #[trigger] decode_utf8(s)[i] == s[i] as char) by {
            assert(decode_utf8(s)[0] == b as char);
            assert(forall|i: int|
                1 <= i < s.len() ==> #[trigger] decode_utf8(s)[i] == decode_utf8(rest)[i - 1]
                    && s[i] == rest[i - 1]);
        }
    }
}

/// The decimal digits of `n`, most significant first, as ASCII bytes.
pub open spec fn spec_decimal(n: nat) -> Seq<u8>
    decreases n,
{
    if n < 10 {
        seq![(48 + n) as u8]
    } else {
        spec_decimal(n / 10) + seq![(48 + n % 10) as u8]
    }
}

/// Append the decimal rendering of `n` to `out`.
pub fn push_decimal_u64(out: &mut Vec<u8>, n: u64)
    ensures
        final(out)@ == old(out)@ + spec_decimal(n as nat),
    decreases n,
{
    if n < 10 {
        out.push((48 + n) as u8);
    } else {
        push_decimal_u64(out, n / 10);
        out.push((48 + (n % 10)) as u8);
    }
}

/// A decimal rendering is ASCII: it is valid UTF-8, and encoding its
/// decoding returns the digits unchanged.
pub proof fn lemma_decimal_ascii(n: nat)
    ensures
        valid_utf8(spec_decimal(n)),
        vstd::utf8::encode_utf8(decode_utf8(spec_decimal(n))) == spec_decimal(n),
{
    lemma_decimal_digits(n);
    assert(forall|i: int|
        0 <= i < spec_decimal(n).len() ==> #[trigger] spec_decimal(n)[i] < 128) by {
        assert(forall|i: int|
            0 <= i < spec_decimal(n).len() ==> is_digit(#[trigger] spec_decimal(n)[i]));
    }
    lemma_ascii_bytes_valid_utf8(spec_decimal(n));
    vstd::utf8::decode_utf8_encode_utf8(spec_decimal(n));
}

/// Whether `b` is an ASCII decimal digit.
pub open spec fn is_digit(b: u8) -> bool {
    48 <= b && b <= 57
}

/// Whether `s` is a canonical decimal numeral: non-empty, all digits, and
/// without a superfluous leading zero.
pub open spec fn is_canonical_decimal(s: Seq<u8>) -> bool {
    &&& s.len() > 0
    &&& forall|i: int| 0 <= i < s.len() ==> is_digit(#[trigger] s[i])
    &&& (s.len() > 1 ==> s[0] != 48)
}

/// The value of a digit string, most significant first.
pub open spec fn spec_decimal_value(s: Seq<u8>) -> int
    decreases s.len(),
{
    if s.len() == 0 {
        0
    } else {
        spec_decimal_value(s.drop_last()) * 10 + (s.last() - 48)
    }
}

proof fn lemma_decimal_digits(n: nat)
    ensures
        is_canonical_decimal(spec_decimal(n)),
        n < 10 ==> spec_decimal(n).len() == 1,
        n > 0 ==> spec_decimal(n)[0] != 48,
    decreases n,
{
    if n >= 10 {
        lemma_decimal_digits(n / 10);
        assert forall|i: int| 0 <= i < spec_decimal(n).len() implies is_digit(
            #[trigger] spec_decimal(n)[i],
        ) by {
            if i < spec_decimal(n / 10).len() {
                assert(spec_decimal(n)[i] == spec_decimal(n / 10)[i]);
            }
        }
        assert(spec_decimal(n)[0] == spec_decimal(n / 10)[0]);
        assert(n / 10 > 0);
    }
}

/// Rendering a number and reading the digits back returns the number.
pub proof fn lemma_decimal_round_trip(n: nat)
    ensures
        is_canonical_decimal(spec_decimal(n)),
        spec_decimal_value(spec_decimal(n)) == n,
    decreases n,
{
    lemma_decimal_digits(n);
    if n < 10 {
        assert(spec_decimal_value(Seq::<u8>::empty()) == 0);
        assert(spec_decimal(n).drop_last() =~= Seq::<u8>::empty());
        assert(spec_decimal(n).last() == (48 + n) as u8);
        assert(spec_decimal_value(spec_decimal(n)) == (48 + n) as u8 - 48);
    } else {
        lemma_decimal_round_trip(n / 10);
        assert(spec_decimal(n).drop_last() =~= spec_decimal(n / 10));
        assert(spec_decimal(n).last() == (48 + n % 10) as u8);
        assert(spec_decimal_value(spec_decimal(n)) == (n / 10) * 10 + (n % 10));
    }
}

/// Canonical numerals are read injectively: equal values mean equal digits.
pub proof fn lemma_canonical_decimal_injective(a: Seq<u8>, b: Seq<u8>)
    requires
        is_canonical_decimal(a),
        is_canonical_decimal(b),
        spec_decimal_value(a) == spec_decimal_value(b),
    ensures
        a == b,
    decreases a.len() + b.len(),
{
    lemma_decimal_value_bound(a);
    lemma_decimal_value_bound(b);
    if a.len() == 1 && b.len() == 1 {
        assert(a =~= b);
    } else if a.len() > 1 && b.len() > 1 {
        let a0 = a.drop_last();
        let b0 = b.drop_last();
        assert(spec_decimal_value(a) == spec_decimal_value(a0) * 10 + (a.last() - 48));
        assert(spec_decimal_value(b) == spec_decimal_value(b0) * 10 + (b.last() - 48));
        assert(spec_decimal_value(a0) == spec_decimal_value(b0) && a.last() == b.last()) by {
            let qa = spec_decimal_value(a0);
            let qb = spec_decimal_value(b0);
            let ra = (a.last() - 48) as int;
            let rb = (b.last() - 48) as int;
            assert(qa * 10 + ra == qb * 10 + rb);
            assert(0 <= ra < 10 && 0 <= rb < 10);
            assert(qa == qb && ra == rb) by (nonlinear_arith)
                requires
                    qa * 10 + ra == qb * 10 + rb,
                    0 <= ra < 10,
                    0 <= rb < 10,
                    qa >= 0,
                    qb >= 0,
            ;
        }
        assert(is_canonical_decimal(a0)) by {
            assert(forall|i: int| 0 <= i < a0.len() ==> is_digit(#[trigger] a0[i])) by {
                assert(forall|i: int| 0 <= i < a0.len() ==> a0[i] == a[i]);
            }
            if spec_decimal_value(a0) == 0 && a0.len() > 1 {
                lemma_decimal_value_zero(a0);
            }
            if a0.len() > 1 {
                assert(a0[0] == a[0]);
            }
        }
        assert(is_canonical_decimal(b0)) by {
            assert(forall|i: int| 0 <= i < b0.len() ==> is_digit(#[trigger] b0[i])) by {
                assert(forall|i: int| 0 <= i < b0.len() ==> b0[i] == b[i]);
            }
            if b0.len() > 1 {
                assert(b0[0] == b[0]);
            }
        }
        lemma_canonical_decimal_injective(a0, b0);
        assert(a.len() == b.len());
        assert(forall|i: int| 0 <= i < a.len() - 1 ==> a[i] == a0[i] && b[i] == b0[i]);
        assert(a =~= b);
    } else {
        // One numeral is a single digit, the other longer: their values differ.
        if a.len() == 1 {
            lemma_long_decimal_at_least_ten(b);
            assert(spec_decimal_value(Seq::<u8>::empty()) == 0);
            assert(a.drop_last() =~= Seq::<u8>::empty());
            assert(spec_decimal_value(a) == a.last() - 48);
        } else {
            lemma_long_decimal_at_least_ten(a);
            assert(spec_decimal_value(Seq::<u8>::empty()) == 0);
            assert(b.drop_last() =~= Seq::<u8>::empty());
            assert(spec_decimal_value(b) == b.last() - 48);
        }
    }
}

proof fn lemma_decimal_value_bound(s: Seq<u8>)
    requires
        forall|i: int| 0 <= i < s.len() ==> is_digit(#[trigger] s[i]),
    ensures
        spec_decimal_value(s) >= 0,
    decreases s.len(),
{
    if s.len() > 0 {
        let s0 = s.drop_last();
        assert(forall|i: int| 0 <= i < s0.len() ==> s0[i] == s[i]);
        lemma_decimal_value_bound(s0);
        assert(spec_decimal_value(s0) * 10 >= 0) by (nonlinear_arith)
            requires
                spec_decimal_value(s0) >= 0,
        ;
    }
}

proof fn lemma_decimal_value_zero(s: Seq<u8>)
    requires
        forall|i: int| 0 <= i < s.len() ==> is_digit(#[trigger] s[i]),
        spec_decimal_value(s) == 0,
        s.len() > 0,
    ensures
        forall|i: int| 0 <= i < s.len() ==> s[i] == 48,
    decreases s.len(),
{
    let s0 = s.drop_last();
    assert(spec_decimal_value(s) == spec_decimal_value(s0) * 10 + (s.last() - 48));
    assert(spec_decimal_value(s0) >= 0) by {
        lemma_decimal_value_bound(s0);
        assert(forall|i: int| 0 <= i < s0.len() ==> s0[i] == s[i]);
    }
    assert(spec_decimal_value(s0) == 0 && s.last() == 48) by (nonlinear_arith)
        requires
            spec_decimal_value(s0) * 10 + (s.last() - 48) == 0,
            spec_decimal_value(s0) >= 0,
            48 <= s.last() <= 57,
    ;
    if s.len() > 1 {
        lemma_decimal_value_zero(s0);
        assert(forall|i: int| 0 <= i < s.len() - 1 ==> s[i] == s0[i]);
    }
}

/// A canonical numeral of more than one digit denotes at least ten.
proof fn lemma_long_decimal_at_least_ten(s: Seq<u8>)
    requires
        is_canonical_decimal(s),
        s.len() > 1,
    ensures
        spec_decimal_value(s) >= 10,
    decreases s.len(),
{
    let s0 = s.drop_last();
    assert(forall|i: int| 0 <= i < s0.len() ==> s0[i] == s[i]);
    assert(spec_decimal_value(s0) >= 1) by {
        if s0.len() == 1 {
            assert(spec_decimal_value(Seq::<u8>::empty()) == 0);
            assert(s0.drop_last() =~= Seq::<u8>::empty());
            assert(spec_decimal_value(s0) == s0.last() - 48);
            assert(s0.last() == s[0]);
            assert(s[0] != 48);
        } else {
            assert(is_canonical_decimal(s0));
            lemma_long_decimal_at_least_ten(s0);
        }
    }
    assert(spec_decimal_value(s0) * 10 >= 10) by (nonlinear_arith)
        requires
            spec_decimal_value(s0) >= 1,
    ;
}

/// Parse a canonical decimal numeral from `s`, refusing values above `max`.
/// Returns `None` when `s` is not canonical or denotes more than `max`.
pub fn parse_decimal_u32(s: &[u8], max: u32) -> (r: Option<u32>)
    ensures
        match r {
            Some(n) => {
                &&& is_canonical_decimal(s@)
                &&& n as int == spec_decimal_value(s@)
                &&& n <= max
            },
            None => !is_canonical_decimal(s@) || spec_decimal_value(s@) > max,
        },
{
    if s.len() == 0 {
        return None;
    }
    if s.len() > 1 && s[0] == 48 {
        return None;
    }
    let n = s.len();
    let mut acc: u64 = 0;
    let mut i: usize = 0;
    while i < n
        invariant
            n == s@.len(),
            0 < n,
            i <= n,
            forall|j: int| 0 <= j < i ==> is_digit(#[trigger] s@[j]),
            acc as int == spec_decimal_value(s@.take(i as int)),
            acc <= max,
            max <= u32::MAX,
        decreases n - i,
    {
        let b = s[i];
        if b < 48 || b > 57 {
            proof {
                assert(!is_digit(s@[i as int]));
            }
            return None;
        }
        proof {
            assert(s@.take(i + 1).drop_last() =~= s@.take(i as int));
            assert(s@.take(i + 1).last() == s@[i as int]);
        }
        let next: u64 = acc * 10 + ((b - 48) as u64);
        if next > max as u64 {
            proof {
                if forall|j: int| 0 <= j < s@.len() ==> is_digit(#[trigger] s@[j]) {
                    lemma_decimal_value_take_monotonic(s@, i + 1);
                }
            }
            return None;
        }
        acc = next;
        i += 1;
    }
    proof {
        assert(s@.take(n as int) =~= s@);
    }
    Some(acc as u32)
}

/// The value of a digit string only grows as digits are appended.
proof fn lemma_decimal_value_take_monotonic(s: Seq<u8>, k: int)
    requires
        0 < k <= s.len(),
        forall|i: int| 0 <= i < s.len() ==> is_digit(#[trigger] s[i]),
    ensures
        spec_decimal_value(s) >= spec_decimal_value(s.take(k)),
    decreases s.len() - k,
{
    if k == s.len() {
        assert(s.take(k) =~= s);
    } else {
        lemma_decimal_value_take_monotonic(s, k + 1);
        let t = s.take(k + 1);
        assert(t.drop_last() =~= s.take(k));
        assert(t.last() == s[k]);
        assert(spec_decimal_value(t) == spec_decimal_value(s.take(k)) * 10 + (s[k] - 48));
        assert(spec_decimal_value(s.take(k)) >= 0) by {
            assert(forall|i: int| 0 <= i < k ==> s.take(k)[i] == s[i]);
            lemma_decimal_value_bound(s.take(k));
        }
        assert(spec_decimal_value(s.take(k)) * 10 >= spec_decimal_value(s.take(k)))
            by (nonlinear_arith)
            requires
                spec_decimal_value(s.take(k)) >= 0,
        ;
    }
}


/// The lowercase hexadecimal digit of a value below sixteen.
pub open spec fn hex_digit(d: nat) -> u8 {
    if d < 10 {
        (48 + d) as u8
    } else {
        (87 + d) as u8
    }
}

/// The lowercase hexadecimal digits of `n`, most significant first.
pub open spec fn spec_hex(n: nat) -> Seq<u8>
    decreases n,
{
    if n < 16 {
        seq![hex_digit(n)]
    } else {
        spec_hex(n / 16) + seq![hex_digit(n % 16)]
    }
}

/// Append the hexadecimal rendering of `n` to `out`.
pub fn push_hex_u16(out: &mut Vec<u8>, n: u16)
    ensures
        final(out)@ == old(out)@ + spec_hex(n as nat),
    decreases n,
{
    if n < 16 {
        if n < 10 {
            out.push((48 + n) as u8);
        } else {
            out.push((87 + n) as u8);
        }
    } else {
        push_hex_u16(out, n / 16);
        let d = n % 16;
        if d < 10 {
            out.push((48 + d) as u8);
        } else {
            out.push((87 + d) as u8);
        }
    }
}

/// Whether every byte is ASCII.
pub open spec fn all_ascii(s: Seq<u8>) -> bool {
    forall|i: int| 0 <= i < s.len() ==> #[trigger] s[i] < 128
}

/// ASCII survives concatenation.
pub proof fn lemma_all_ascii_concat(s1: Seq<u8>, s2: Seq<u8>)
    requires
        all_ascii(s1),
        all_ascii(s2),
    ensures
        all_ascii(s1 + s2),
{
    assert forall|i: int| 0 <= i < (s1 + s2).len() implies #[trigger] (s1 + s2)[i] < 128 by {
        if i < s1.len() {
            assert((s1 + s2)[i] == s1[i]);
        } else {
            assert((s1 + s2)[i] == s2[i - s1.len()]);
        }
    }
}

/// Every decimal-rendered byte is an ASCII digit.
pub proof fn lemma_decimal_is_ascii(n: nat)
    ensures
        all_ascii(spec_decimal(n)),
{
    lemma_decimal_round_trip(n);
    assert(forall|i: int|
        0 <= i < spec_decimal(n).len() ==> is_digit(#[trigger] spec_decimal(n)[i]));
}

/// Every hexadecimal-rendered byte is ASCII.
pub proof fn lemma_hex_is_ascii(n: nat)
    ensures
        all_ascii(spec_hex(n)),
    decreases n,
{
    if n < 16 {
        assert(spec_hex(n)[0] == hex_digit(n));
    } else {
        lemma_hex_is_ascii(n / 16);
        assert(forall|i: int|
            0 <= i < spec_hex(n / 16).len() ==> spec_hex(n)[i] == spec_hex(n / 16)[i]);
        assert(spec_hex(n).last() == hex_digit(n % 16));
    }
}

/// Turn ASCII bytes into the string whose characters they are.
pub fn ascii_to_string(bytes: Vec<u8>) -> (r: String)
    requires
        all_ascii(bytes@),
    ensures
        vstd::utf8::encode_utf8(r@) == bytes@,
{
    proof {
        lemma_ascii_bytes_valid_utf8(bytes@);
        vstd::utf8::decode_utf8_encode_utf8(bytes@);
    }
    match string_from_utf8(bytes) {
        Some(s) => s,
        None => {
            proof {
                assert(false);
            }
            String::new()
        },
    }
}

} // verus!
