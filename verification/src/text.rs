//! Byte-level text utilities shared by the extractors: hexadecimal and
//! decimal digits, percent-decoding, integer coercion, and UTF-8 string
//! coercion.
//!
//! Raw request data is modelled as byte sequences throughout; a value is
//! turned into a `String` only at the point where a target shape declares a
//! string field, and that coercion fails unless the bytes are valid UTF-8.

use vstd::prelude::*;
use vstd::utf8::{decode_utf8, valid_utf8};

verus! {

/// An ASCII decimal digit.
pub open spec fn is_digit(b: u8) -> bool {
    48 <= b && b <= 57
}

/// An ASCII hexadecimal digit, either case.
pub open spec fn is_hex_digit(b: u8) -> bool {
    is_digit(b) || (97 <= b && b <= 102) || (65 <= b && b <= 70)
}

/// Numeric value of a hexadecimal digit.
pub open spec fn hex_val(b: u8) -> u8
    recommends
        is_hex_digit(b),
{
    if is_digit(b) {
        (b - 48) as u8
    } else if 97 <= b && b <= 102 {
        (b - 87) as u8
    } else {
        (b - 55) as u8
    }
}

/// Hexadecimal digit test and value in one pass.
pub fn hex_digit_val(b: u8) -> (r: Option<u8>)
    ensures
        r == if is_hex_digit(b) {
            Some(hex_val(b))
        } else {
            None::<u8>
        },
{
    if 48 <= b && b <= 57 {
        Some(b - 48)
    } else if 97 <= b && b <= 102 {
        Some(b - 87)
    } else if 65 <= b && b <= 70 {
        Some(b - 55)
    } else {
        None
    }
}

/// Percent-decoding as application/x-www-form-urlencoded reads it, from the
/// front of `s`: `+` stands for a space, `%` followed by two hexadecimal
/// digits stands for the octet they spell, and every other byte (a malformed
/// escape included) stands for itself. The function is total: no input is
/// rejected.
pub open spec fn pct_decode(s: Seq<u8>) -> Seq<u8>
    decreases s.len(),
{
    if s.len() == 0 {
        Seq::empty()
    } else if s[0] == 43 {
        seq![32u8] + pct_decode(s.skip(1))
    } else if s[0] == 37 && s.len() >= 3 && is_hex_digit(s[1]) && is_hex_digit(s[2]) {
        seq![(hex_val(s[1]) * 16 + hex_val(s[2])) as u8] + pct_decode(s.skip(3))
    } else {
        seq![s[0]] + pct_decode(s.skip(1))
    }
}

/// Percent-decodes `s`.
pub fn pct_decode_exec(s: &[u8]) -> (r: Vec<u8>)
    ensures
        r@ == pct_decode(s@),
{
    let mut out: Vec<u8> = Vec::new();
    let mut i: usize = 0;
    proof {
        assert(s@.skip(0) =~= s@);
    }
    while i < s.len()
        invariant
            i <= s.len(),
            out@ + pct_decode(s@.skip(i as int)) == pct_decode(s@),
        decreases s.len() - i,
    {
        let ghost pre = out@;
        let b = s[i];
        if b == 43 {
            out.push(32);
            proof {
                assert(s@.skip(i as int).skip(1) =~= s@.skip(i as int + 1));
                assert(pre + pct_decode(s@.skip(i as int)) == pre + (seq![32u8] + pct_decode(
                    s@.skip(i as int + 1),
                )));
                assert(pre + (seq![32u8] + pct_decode(s@.skip(i as int + 1))) =~= out@
                    + pct_decode(s@.skip(i as int + 1)));
            }
            i = i + 1;
        } else if b == 37 && s.len() - i > 2 {
            let h = hex_digit_val(s[i + 1]);
            let l = hex_digit_val(s[i + 2]);
            match (h, l) {
                (Some(hv), Some(lv)) => {
                    let d = hv * 16 + lv;
                    out.push(d);
                    proof {
                        assert(s@.skip(i as int).skip(3) =~= s@.skip(i as int + 3));
                        assert(pre + (seq![d] + pct_decode(s@.skip(i as int + 3))) =~= out@
                            + pct_decode(s@.skip(i as int + 3)));
                    }
                    i = i + 3;
                },
                _ => {
                    out.push(b);
                    proof {
                        assert(s@.skip(i as int).skip(1) =~= s@.skip(i as int + 1));
                        assert(pre + (seq![b] + pct_decode(s@.skip(i as int + 1))) =~= out@
                            + pct_decode(s@.skip(i as int + 1)));
                    }
                    i = i + 1;
                },
            }
        } else {
            out.push(b);
            proof {
                assert(s@.skip(i as int).skip(1) =~= s@.skip(i as int + 1));
                assert(pre + (seq![b] + pct_decode(s@.skip(i as int + 1))) =~= out@ + pct_decode(
                    s@.skip(i as int + 1),
                ));
            }
            i = i + 1;
        }
    }
    proof {
        assert(s@.skip(s@.len() as int) =~= Seq::<u8>::empty());
        assert(out@ =~= out@ + pct_decode(s@.skip(s@.len() as int)));
    }
    out
}

/// Every byte of `s` is an ASCII decimal digit.
pub open spec fn all_digits(s: Seq<u8>) -> bool {
    forall|i: int| 0 <= i < s.len() ==> is_digit(#[trigger] s[i])
}

/// Value of a decimal digit string, most significant digit first.
pub open spec fn dec_val(s: Seq<u8>) -> int
    recommends
        all_digits(s),
    decreases s.len(),
{
    if s.len() == 0 {
        0
    } else {
        dec_val(s.drop_last()) * 10 + (s.last() - 48)
    }
}

/// Powers of ten.
pub open spec fn pow10(n: nat) -> int
    decreases n,
{
    if n == 0 {
        1
    } else {
        10 * pow10((n - 1) as nat)
    }
}

proof fn lemma_pow10_pos(n: nat)
    ensures
        pow10(n) >= 1,
    decreases n,
{
    if n > 0 {
        lemma_pow10_pos((n - 1) as nat);
    }
}

proof fn lemma_pow10_mono(a: nat, b: nat)
    requires
        a <= b,
    ensures
        pow10(a) <= pow10(b),
        pow10(a) >= 1,
    decreases b,
{
    lemma_pow10_pos(a);
    if a < b {
        lemma_pow10_mono(a, (b - 1) as nat);
        lemma_pow10_pos((b - 1) as nat);
        assert(pow10(b) == 10 * pow10((b - 1) as nat));
    }
}

/// A digit string's value is never negative.
pub proof fn lemma_dec_val_nonneg(s: Seq<u8>)
    requires
        all_digits(s),
    ensures
        dec_val(s) >= 0,
    decreases s.len(),
{
    if s.len() > 0 {
        lemma_dec_val_nonneg(s.drop_last());
    }
}

proof fn lemma_dec_val_upper(s: Seq<u8>)
    requires
        all_digits(s),
    ensures
        dec_val(s) < pow10(s.len() as nat),
    decreases s.len(),
{
    if s.len() == 0 {
    } else {
        lemma_dec_val_upper(s.drop_last());
        assert(pow10(s.len() as nat) == 10 * pow10((s.len() - 1) as nat));
    }
}

proof fn lemma_dec_val_lower(s: Seq<u8>)
    requires
        all_digits(s),
        s.len() >= 1,
        s[0] != 48,
    ensures
        dec_val(s) >= pow10((s.len() - 1) as nat),
    decreases s.len(),
{
    if s.len() == 1 {
        assert(dec_val(s) == dec_val(s.drop_last()) * 10 + (s.last() - 48));
    } else {
        lemma_dec_val_lower(s.drop_last());
        assert(pow10((s.len() - 1) as nat) == 10 * pow10((s.len() - 2) as nat));
    }
}

proof fn lemma_dec_val_drop_leading_zero(s: Seq<u8>)
    requires
        s.len() >= 1,
        s[0] == 48,
    ensures
        dec_val(s) == dec_val(s.skip(1)),
    decreases s.len(),
{
    if s.len() == 1 {
        assert(s.skip(1) =~= Seq::<u8>::empty());
        assert(dec_val(s) == dec_val(s.drop_last()) * 10 + (s.last() - 48));
        assert(s.drop_last() =~= Seq::<u8>::empty());
    } else {
        lemma_dec_val_drop_leading_zero(s.drop_last());
        assert(s.skip(1).drop_last() =~= s.drop_last().skip(1));
        assert(s.skip(1).last() == s.last());
        assert(dec_val(s) == dec_val(s.drop_last()) * 10 + (s.last() - 48));
        assert(dec_val(s.skip(1)) == dec_val(s.skip(1).drop_last()) * 10 + (s.skip(1).last()
            - 48));
    }
}

proof fn lemma_dec_val_skip_zeros(s: Seq<u8>, z: int)
    requires
        0 <= z <= s.len(),
        forall|j: int| 0 <= j < z ==> s[j] == 48,
    ensures
        dec_val(s) == dec_val(s.skip(z)),
    decreases z,
{
    if z == 0 {
        assert(s.skip(0) =~= s);
    } else {
        lemma_dec_val_drop_leading_zero(s);
        assert(s.skip(1).skip(z - 1) =~= s.skip(z));
        lemma_dec_val_skip_zeros(s.skip(1), z - 1);
    }
}

proof fn lemma_pow10_19()
    ensures
        pow10(19) == 10_000_000_000_000_000_000,
{
    assert(pow10(0) == 1);
    assert(pow10(1) == 10);
    assert(pow10(2) == 100);
    assert(pow10(3) == 1000);
    assert(pow10(4) == 10000);
    assert(pow10(5) == 100000);
    assert(pow10(6) == 1000000);
    assert(pow10(7) == 10000000);
    assert(pow10(8) == 100000000);
    assert(pow10(9) == 1000000000);
    assert(pow10(10) == 10000000000);
    assert(pow10(11) == 100000000000);
    assert(pow10(12) == 1000000000000);
    assert(pow10(13) == 10000000000000);
    assert(pow10(14) == 100000000000000);
    assert(pow10(15) == 1000000000000000);
    assert(pow10(16) == 10000000000000000);
    assert(pow10(17) == 100000000000000000);
    assert(pow10(18) == 1000000000000000000);
    assert(pow10(19) == 10000000000000000000);
}

/// Decimal coercion of a digit string to an unsigned magnitude: defined
/// exactly when `s` is one or more decimal digits whose value does not
/// exceed the signed 64-bit maximum; larger literals are out of range for
/// every target this library declares.
pub open spec fn spec_dec_u64(s: Seq<u8>) -> Option<u64> {
    if s.len() >= 1 && all_digits(s) && dec_val(s) <= 0x7fff_ffff_ffff_ffff {
        Some(dec_val(s) as u64)
    } else {
        None
    }
}

/// Reads a decimal digit string as an unsigned magnitude.
pub fn dec_u64(s: &[u8]) -> (r: Option<u64>)
    ensures
        r == spec_dec_u64(s@),
{
    if s.len() == 0 {
        return None;
    }
    let mut i: usize = 0;
    while i < s.len()
        invariant
            i <= s.len(),
            forall|j: int| 0 <= j < i ==> is_digit(#[trigger] s@[j]),
        decreases s.len() - i,
    {
        let b = s[i];
        if b < 48 || b > 57 {
            return None;
        }
        i = i + 1;
    }
    let mut z: usize = 0;
    while z < s.len() && s[z] == 48
        invariant
            z <= s.len(),
            forall|j: int| 0 <= j < z ==> s@[j] == 48,
        decreases s.len() - z,
    {
        z = z + 1;
    }
    proof {
        lemma_dec_val_skip_zeros(s@, z as int);
        lemma_dec_val_nonneg(s@.skip(z as int));
    }
    if z == s.len() {
        proof {
            assert(s@.skip(z as int) =~= Seq::<u8>::empty());
        }
        return Some(0);
    }
    let m = s.len() - z;
    if m >= 20 {
        proof {
            lemma_dec_val_lower(s@.skip(z as int));
            lemma_pow10_mono(19, (m - 1) as nat);
            lemma_pow10_19();
        }
        return None;
    }
    let mut acc: u64 = 0;
    let mut j: usize = z;
    proof {
        assert(s@.subrange(z as int, z as int) =~= Seq::<u8>::empty());
    }
    while j < s.len()
        invariant
            z <= j <= s@.len(),
            s@.len() - z <= 19,
            all_digits(s@),
            acc == dec_val(s@.subrange(z as int, j as int)),
            acc < pow10((j - z) as nat),
        decreases s.len() - j,
    {
        let d = s[j];
        proof {
            lemma_pow10_mono((j - z) as nat, 18);
            lemma_pow10_19();
            assert(pow10(19) == 10 * pow10(18));
            assert(s@.subrange(z as int, j as int + 1).drop_last() =~= s@.subrange(
                z as int,
                j as int,
            ));
            assert(pow10((j - z + 1) as nat) == 10 * pow10((j - z) as nat));
        }
        acc = acc * 10 + ((d - 48) as u64);
        j = j + 1;
    }
    proof {
        assert(s@.subrange(z as int, s@.len() as int) =~= s@.skip(z as int));
        lemma_dec_val_upper(s@.skip(z as int));
    }
    if acc <= 0x7fff_ffff_ffff_ffff {
        Some(acc)
    } else {
        None
    }
}

/// Integer coercion to `i32`: an optional leading minus sign, then one or
/// more decimal digits, and the value must fit the target's range. Anything
/// else is out of the grammar.
pub open spec fn spec_parse_i32(s: Seq<u8>) -> Option<i32> {
    if s.len() >= 1 && s[0] == 45 {
        let m = s.skip(1);
        if m.len() >= 1 && all_digits(m) && dec_val(m) <= 2147483648 {
            Some((0 - dec_val(m)) as i32)
        } else {
            None
        }
    } else if s.len() >= 1 && all_digits(s) && dec_val(s) <= 2147483647 {
        Some(dec_val(s) as i32)
    } else {
        None
    }
}

/// Coerces a byte string to an `i32`.
pub fn parse_i32(s: &[u8]) -> (r: Option<i32>)
    ensures
        r == spec_parse_i32(s@),
{
    if s.len() >= 1 && s[0] == 45 {
        let mag = copy_range(s, 1, s.len());
        proof {
            assert(mag@ =~= s@.skip(1));
        }
        match dec_u64(mag.as_slice()) {
            Some(v) => {
                proof {
                    lemma_dec_val_nonneg(s@.skip(1));
                }
                if v <= 2147483648 {
                    Some((-(v as i64)) as i32)
                } else {
                    None
                }
            },
            None => None,
        }
    } else {
        match dec_u64(s) {
            Some(v) => {
                proof {
                    if s@.len() >= 1 && all_digits(s@) {
                        lemma_dec_val_nonneg(s@);
                    }
                }
                if v <= 2147483647 {
                    Some(v as i32)
                } else {
                    None
                }
            },
            None => None,
        }
    }
}

/// Integer coercion to `u8`: one or more decimal digits whose value fits in
/// eight bits.
pub open spec fn spec_parse_u8(s: Seq<u8>) -> Option<u8> {
    if s.len() >= 1 && all_digits(s) && dec_val(s) <= 255 {
        Some(dec_val(s) as u8)
    } else {
        None
    }
}

/// Coerces a byte string to a `u8`.
pub fn parse_u8(s: &[u8]) -> (r: Option<u8>)
    ensures
        r == spec_parse_u8(s@),
{
    match dec_u64(s) {
        Some(v) => {
            proof {
                if s@.len() >= 1 && all_digits(s@) {
                    lemma_dec_val_nonneg(s@);
                }
            }
            if v <= 255 {
                Some(v as u8)
            } else {
                None
            }
        },
        None => None,
    }
}

/// Byte-for-byte equality of two byte strings.
pub fn bytes_eq(a: &[u8], b: &[u8]) -> (r: bool)
    ensures
        r == (a@ == b@),
{
    if a.len() != b.len() {
        proof {
            assert(a@.len() != b@.len());
        }
        return false;
    }
    let mut i: usize = 0;
    while i < a.len()
        invariant
            i <= a.len(),
            a@.len() == b@.len(),
            forall|j: int| 0 <= j < i ==> a@[j] == b@[j],
        decreases a.len() - i,
    {
        if a[i] != b[i] {
            return false;
        }
        i = i + 1;
    }
    proof {
        assert(a@ =~= b@);
    }
    true
}

/// Copies the bytes of `s` from `a` (inclusive) to `b` (exclusive).
pub fn copy_range(s: &[u8], a: usize, b: usize) -> (r: Vec<u8>)
    requires
        a <= b <= s@.len(),
    ensures
        r@ == s@.subrange(a as int, b as int),
{
    let mut out: Vec<u8> = Vec::new();
    let mut i: usize = a;
    while i < b
        invariant
            a <= i <= b <= s@.len(),
            out@ == s@.subrange(a as int, i as int),
        decreases b - i,
    {
        out.push(s[i]);
        proof {
            assert(out@ =~= s@.subrange(a as int, i as int + 1));
        }
        i = i + 1;
    }
    proof {
        assert(out@ =~= s@.subrange(a as int, b as int));
    }
    out
}

/// ASCII lower-casing of one byte.
pub open spec fn ascii_lower(b: u8) -> u8 {
    if 65 <= b && b <= 90 {
        (b + 32) as u8
    } else {
        b
    }
}

/// ASCII lower-casing of a byte string.
pub open spec fn lower(s: Seq<u8>) -> Seq<u8> {
    s.map(|i: int, b: u8| ascii_lower(b))
}

/// ASCII-case-insensitive equality of two byte strings, as header names are
/// compared.
pub fn bytes_eq_ci(a: &[u8], b: &[u8]) -> (r: bool)
    ensures
        r == (lower(a@) == lower(b@)),
{
    if a.len() != b.len() {
        proof {
            assert(lower(a@).len() != lower(b@).len());
        }
        return false;
    }
    let mut i: usize = 0;
    while i < a.len()
        invariant
            i <= a.len(),
            a@.len() == b@.len(),
            forall|j: int| 0 <= j < i ==> lower(a@)[j] == lower(b@)[j],
        decreases a.len() - i,
    {
        let x = a[i];
        let y = b[i];
        let xl = if 65 <= x && x <= 90 {
            x + 32
        } else {
            x
        };
        let yl = if 65 <= y && y <= 90 {
            y + 32
        } else {
            y
        };
        if xl != yl {
            proof {
                assert(lower(a@)[i as int] != lower(b@)[i as int]);
            }
            return false;
        }
        i = i + 1;
    }
    proof {
        assert(lower(a@) =~= lower(b@));
    }
    true
}

/// Every byte of `v` is below 128, so `v` is ASCII text.
pub open spec fn all_ascii(v: Seq<u8>) -> bool {
    forall|i: int| 0 <= i < v.len() ==> #[trigger] v[i] < 128
}

/// ASCII text is valid UTF-8.
pub proof fn lemma_ascii_valid_utf8(v: Seq<u8>)
    requires
        all_ascii(v),
    ensures
        valid_utf8(v),
    decreases v.len(),
{
    if v.len() > 0 {
        let b0 = v[0];
        assert(vstd::utf8::is_leading_byte_width_1(b0));
        assert(vstd::utf8::valid_first_scalar(v)) by {
            assert(vstd::utf8::decode_first_codepoint(v) == (b0 & 0x7f) as u32);
            assert(b0 & 0x7f == b0) by (bit_vector)
                requires
                    b0 < 128,
            ;
        }
        assert(vstd::utf8::pop_first_scalar(v) =~= v.skip(1));
        lemma_ascii_valid_utf8(v.skip(1));
    }
}

/// String coercion. Relies on `String::from_utf8` from std: it succeeds
/// exactly when the bytes are valid UTF-8, and the string it returns reads
/// those bytes as UTF-8.
#[verifier::external_body]
pub(crate) fn string_from_utf8(v: Vec<u8>) -> (r: Option<String>)
    ensures
        r is Some <==> valid_utf8(v@),
        r matches Some(s) ==> s@ == decode_utf8(v@),
{
    match String::from_utf8(v) {
        Ok(s) => Some(s),
        Err(_) => None,
    }
}

} // verus!
