//! Decimal parsing (`str::parse` for `i64`/`u64`) and number formatting
//! (`{}` for `i64`, `{:x}` for `u64`, `{:02x}` per byte), over ASCII bytes.

use vstd::prelude::*;

verus! {

broadcast use vstd::seq::group_seq_axioms;

/// An ASCII decimal digit.
pub open spec fn is_digit(b: u8) -> bool {
    48 <= b <= 57
}

pub open spec fn all_digits(d: Seq<u8>) -> bool {
    forall|i: int| 0 <= i < d.len() ==> is_digit(#[trigger] d[i])
}

/// The value of a sequence of decimal digits, most significant first.
pub open spec fn digits_value(d: Seq<u8>) -> nat
    decreases d.len(),
{
    if d.len() == 0 {
        0
    } else {
        digits_value(d.drop_last()) * 10 + (d.last() - 48) as nat
    }
}

/// `<i64 as FromStr>::from_str`: an optional `+` or `-`, then one or more
/// decimal digits, with the value in range.
pub open spec fn parse_i64_spec(b: Seq<u8>) -> Option<i64> {
    if b.len() == 0 {
        None
    } else {
        let signed = b[0] == 43 || b[0] == 45;
        let digits = if signed { b.drop_first() } else { b };
        if digits.len() == 0 || !all_digits(digits) {
            None
        } else if b[0] == 45 {
            if digits_value(digits) <= 0x8000_0000_0000_0000 {
                Some((0 - digits_value(digits)) as i64)
            } else {
                None
            }
        } else if digits_value(digits) <= 0x7fff_ffff_ffff_ffff {
            Some(digits_value(digits) as i64)
        } else {
            None
        }
    }
}

/// `<u64 as FromStr>::from_str`: an optional `+`, then one or more decimal
/// digits, with the value in range.
pub open spec fn parse_u64_spec(b: Seq<u8>) -> Option<u64> {
    if b.len() == 0 {
        None
    } else {
        let digits = if b[0] == 43 { b.drop_first() } else { b };
        if digits.len() == 0 || !all_digits(digits) {
            None
        } else if digits_value(digits) <= 0xffff_ffff_ffff_ffff {
            Some(digits_value(digits) as u64)
        } else {
            None
        }
    }
}

proof fn lemma_digits_value_grows(d: Seq<u8>, x: u8)
    requires
        is_digit(x),
    ensures
        digits_value(d.push(x)) == digits_value(d) * 10 + (x - 48) as nat,
        digits_value(d.push(x)) >= digits_value(d),
{
    assert(d.push(x).drop_last() =~= d);
}

/// Reads the decimal digits `b[start..]`. Returns the value when all are
/// digits and the value is at most `limit`, `None` otherwise.
fn digits_up_to(b: &[u8], start: usize, limit: u64) -> (r: Option<u64>)
    requires
        start <= b@.len(),
    ensures
        ({
            let d = b@.subrange(start as int, b@.len() as int);
            match r {
                Some(v) => all_digits(d) && digits_value(d) <= limit && v == digits_value(d),
                None => !all_digits(d) || digits_value(d) > limit,
            }
        }),
{
    let mut acc: u128 = 0;
    let mut big = false;
    let mut i = start;
    while i < b.len()
        invariant
            start <= i <= b@.len(),
            all_digits(b@.subrange(start as int, i as int)),
            !big ==> acc == digits_value(b@.subrange(start as int, i as int)) && acc <= limit,
            big ==> digits_value(b@.subrange(start as int, i as int)) > limit,
        decreases b@.len() - i,
    {
        let c = b[i];
        if c < 48 || c > 57 {
            proof {
                let d = b@.subrange(start as int, b@.len() as int);
                assert(d[i - start] == c);
            }
            return None;
        }
        proof {
            let p = b@.subrange(start as int, i as int);
            assert(b@.subrange(start as int, i + 1) =~= p.push(c));
            lemma_digits_value_grows(p, c);
        }
        if !big {
            let next = acc * 10 + (c - 48) as u128;
            if next > limit as u128 {
                big = true;
            } else {
                acc = next;
            }
        }
        i = i + 1;
    }
    proof {
        assert(b@.subrange(start as int, i as int) =~= b@.subrange(start as int, b@.len() as int));
    }
    if big {
        None
    } else {
        Some(acc as u64)
    }
}

/// `str::parse::<i64>` on the bytes of a string.
pub fn parse_i64(b: &[u8]) -> (r: Option<i64>)
    ensures
        r == parse_i64_spec(b@),
{
    if b.len() == 0 {
        return None;
    }
    let signed = b[0] == 43 || b[0] == 45;
    let start: usize = if signed { 1 } else { 0 };
    proof {
        let digits = if signed { b@.drop_first() } else { b@ };
        assert(digits =~= b@.subrange(start as int, b@.len() as int));
    }
    if start == b.len() {
        return None;
    }
    if b[0] == 45 {
        match digits_up_to(b, start, 0x8000_0000_0000_0000) {
            Some(v) => {
                if v == 0x8000_0000_0000_0000 {
                    Some(-0x8000_0000_0000_0000i64)
                } else {
                    Some(0 - (v as i64))
                }
            },
            None => None,
        }
    } else {
        match digits_up_to(b, start, 0x7fff_ffff_ffff_ffff) {
            Some(v) => Some(v as i64),
            None => None,
        }
    }
}

/// `str::parse::<u64>` on the bytes of a string.
pub fn parse_u64(b: &[u8]) -> (r: Option<u64>)
    ensures
        r == parse_u64_spec(b@),
{
    if b.len() == 0 {
        return None;
    }
    let start: usize = if b[0] == 43 { 1 } else { 0 };
    proof {
        let digits = if b[0] == 43 { b@.drop_first() } else { b@ };
        assert(digits =~= b@.subrange(start as int, b@.len() as int));
    }
    if start == b.len() {
        return None;
    }
    digits_up_to(b, start, 0xffff_ffff_ffff_ffff)
}

/// The ASCII byte of a hexadecimal digit value, lowercase.
pub open spec fn hex_digit_lower(v: nat) -> u8 {
    if v < 10 {
        (48 + v) as u8
    } else {
        (87 + v) as u8
    }
}

/// `{:02x}` of one byte.
pub open spec fn byte_hex(b: u8) -> Seq<u8> {
    seq![hex_digit_lower((b / 16) as nat), hex_digit_lower((b % 16) as nat)]
}

/// Lowercase hexadecimal, two digits per byte, in order.
pub open spec fn hex_lower(b: Seq<u8>) -> Seq<u8>
    decreases b.len(),
{
    if b.len() == 0 {
        Seq::empty()
    } else {
        hex_lower(b.drop_last()) + byte_hex(b.last())
    }
}

pub proof fn lemma_hex_lower_len(b: Seq<u8>)
    ensures
        hex_lower(b).len() == 2 * b.len(),
    decreases b.len(),
{
    if b.len() > 0 {
        lemma_hex_lower_len(b.drop_last());
    }
}

/// Every byte of `hex_lower(b)` is an ASCII hexadecimal digit `0-9a-f`.
pub proof fn lemma_hex_lower_digits(b: Seq<u8>)
    ensures
        forall|i: int|
            0 <= i < hex_lower(b).len() ==> {
                let c = #[trigger] hex_lower(b)[i];
                (48 <= c <= 57) || (97 <= c <= 102)
            },
    decreases b.len(),
{
    if b.len() > 0 {
        lemma_hex_lower_digits(b.drop_last());
        lemma_hex_lower_len(b.drop_last());
        let p = hex_lower(b.drop_last());
        let q = byte_hex(b.last());
        assert forall|i: int| 0 <= i < hex_lower(b).len() implies {
            let c = #[trigger] hex_lower(b)[i];
            (48 <= c <= 57) || (97 <= c <= 102)
        } by {
            if i >= p.len() {
                assert(hex_lower(b)[i] == q[i - p.len()]);
            } else {
                assert(hex_lower(b)[i] == p[i]);
            }
        }
    }
}

fn hex_digit_byte(v: u8) -> (c: u8)
    requires
        v < 16,
    ensures
        c == hex_digit_lower(v as nat),
{
    if v < 10 {
        48 + v
    } else {
        87 + v
    }
}

/// Appends `{:02x}` of every byte of `b` to `out`.
pub fn push_hex_lower(out: &mut Vec<u8>, b: &[u8])
    ensures
        final(out)@ == old(out)@ + hex_lower(b@),
{
    let mut i: usize = 0;
    while i < b.len()
        invariant
            0 <= i <= b@.len(),
            out@ == old(out)@ + hex_lower(b@.subrange(0, i as int)),
        decreases b@.len() - i,
    {
        let x = b[i];
        let hi = hex_digit_byte(x / 16);
        let lo = hex_digit_byte(x % 16);
        proof {
            let p = b@.subrange(0, i as int);
            let q = b@.subrange(0, i + 1);
            assert(q.drop_last() =~= p);
            assert(q.last() == x);
        }
        out.push(hi);
        out.push(lo);
        proof {
            let p = b@.subrange(0, i as int);
            let q = b@.subrange(0, i + 1);
            assert(hex_lower(q) == hex_lower(p) + byte_hex(x));
            assert(out@ =~= old(out)@ + hex_lower(q));
        }
        i = i + 1;
    }
    proof {
        assert(b@.subrange(0, b@.len() as int) =~= b@);
    }
}

/// `{:x}` of an unsigned value: lowercase hexadecimal without leading zeros.
pub open spec fn hex_digits(v: nat) -> Seq<u8>
    decreases v,
{
    if v < 16 {
        seq![hex_digit_lower(v)]
    } else {
        hex_digits(v / 16).push(hex_digit_lower(v % 16))
    }
}

/// Decimal digits of a value without leading zeros.
pub open spec fn decimal_digits(v: nat) -> Seq<u8>
    decreases v,
{
    if v < 10 {
        seq![(48 + v) as u8]
    } else {
        decimal_digits(v / 10).push((48 + v % 10) as u8)
    }
}

/// `{}` of an `i64`: a `-` for negative values, then the decimal digits of the magnitude.
pub open spec fn i64_decimal(v: i64) -> Seq<u8> {
    if v < 0 {
        seq![45u8] + decimal_digits((0 - v) as nat)
    } else {
        decimal_digits(v as nat)
    }
}

/// Digits of `v` in base `radix` (most significant first); with radix 16 it
/// is `hex_digits`, with radix 10 `decimal_digits`.
fn push_digits(out: &mut Vec<u8>, v: u64, radix: u64)
    requires
        radix == 10 || radix == 16,
    ensures
        radix == 16 ==> final(out)@ == old(out)@ + hex_digits(v as nat),
        radix == 10 ==> final(out)@ == old(out)@ + decimal_digits(v as nat),
{
    let mut digits: Vec<u8> = Vec::new();
    let mut n = v;
    let ghost mut tail: Seq<u8> = Seq::empty();
    // digits holds the low-order digits, least significant first.
    while n >= radix
        invariant
            radix == 10 || radix == 16,
            n <= v,
            radix == 16 ==> hex_digits(v as nat) == hex_digits(n as nat) + tail,
            radix == 10 ==> decimal_digits(v as nat) == decimal_digits(n as nat) + tail,
            digits@.len() == tail.len(),
            forall|i: int| 0 <= i < tail.len() ==> #[trigger] tail[i] == digits@[digits@.len() - 1 - i],
        decreases n,
    {
        let d = (n % radix) as u8;
        let c = if d < 10 { 48 + d } else { 87 + d };
        proof {
            if radix == 16 {
                assert(hex_digits(n as nat) == hex_digits((n / 16) as nat).push(hex_digit_lower((n % 16) as nat)));
                assert(hex_digits(n as nat) =~= hex_digits((n / 16) as nat) + seq![c]);
            } else {
                assert(decimal_digits(n as nat) == decimal_digits((n / 10) as nat).push((48 + n % 10) as u8));
                assert(decimal_digits(n as nat) =~= decimal_digits((n / 10) as nat) + seq![c]);
            }
            let new_tail = seq![c] + tail;
            assert(hex_digits(v as nat) =~= hex_digits((n / radix) as nat) + new_tail || radix != 16);
            assert(decimal_digits(v as nat) =~= decimal_digits((n / radix) as nat) + new_tail || radix != 10);
            tail = new_tail;
        }
        digits.push(c);
        n = n / radix;
    }
    let d = n as u8;
    let c = if d < 10 { 48 + d } else { 87 + d };
    out.push(c);
    proof {
        assert(radix == 16 ==> hex_digits(n as nat) == seq![c]);
        assert(radix == 10 ==> decimal_digits(n as nat) == seq![c]);
    }
    let ghost base = out@;
    let mut j: usize = digits.len();
    while j > 0
        invariant
            j <= digits@.len(),
            digits@.len() == tail.len(),
            forall|i: int| 0 <= i < tail.len() ==> #[trigger] tail[i] == digits@[digits@.len() - 1 - i],
            out@ == base + tail.subrange(0, digits@.len() - j),
        decreases j,
    {
        j = j - 1;
        let x = digits[j];
        proof {
            let k = digits@.len() - 1 - j;
            assert(tail[k] == x);
            assert(tail.subrange(0, k + 1) =~= tail.subrange(0, k).push(x));
        }
        out.push(x);
    }
    proof {
        assert(tail.subrange(0, tail.len() as int) =~= tail);
        assert(out@ =~= old(out)@ + seq![c] + tail);
        assert(radix == 16 ==> out@ =~= old(out)@ + hex_digits(v as nat));
        assert(radix == 10 ==> out@ =~= old(out)@ + decimal_digits(v as nat));
    }
}

/// Appends `{:x}` of `v`.
pub fn push_hex_digits(out: &mut Vec<u8>, v: u64)
    ensures
        final(out)@ == old(out)@ + hex_digits(v as nat),
{
    push_digits(out, v, 16);
}

/// Appends `{}` of `v`.
pub fn push_i64_decimal(out: &mut Vec<u8>, v: i64)
    ensures
        final(out)@ == old(out)@ + i64_decimal(v),
{
    if v < 0 {
        out.push(45u8);
        let m: u64 = if v == -0x8000_0000_0000_0000i64 {
            0x8000_0000_0000_0000u64
        } else {
            (0 - v) as u64
        };
        let ghost mid = out@;
        push_digits(out, m, 10);
        proof {
            assert(out@ =~= old(out)@ + i64_decimal(v));
        }
    } else {
        push_digits(out, v as u64, 10);
    }
}


proof fn lemma_decimal_digits_value(n: nat)
    ensures
        all_digits(decimal_digits(n)),
        decimal_digits(n).len() >= 1,
        is_digit(decimal_digits(n)[0]),
        digits_value(decimal_digits(n)) == n,
    decreases n,
{
    if n >= 10 {
        lemma_decimal_digits_value(n / 10);
        let d = decimal_digits(n / 10);
        let x = (48 + n % 10) as u8;
        assert(decimal_digits(n) == d.push(x));
        lemma_digits_value_grows(d, x);
        assert(decimal_digits(n)[0] == d[0]);
        assert((x - 48) as nat == n % 10);
        vstd::arithmetic::div_mod::lemma_fundamental_div_mod(n as int, 10);
        assert(digits_value(decimal_digits(n)) == (n / 10) * 10 + n % 10);
    } else {
        let d = decimal_digits(n);
        assert(d.drop_last() =~= Seq::<u8>::empty());
        assert(digits_value(d.drop_last()) == 0);
        assert(d.last() == (48 + n) as u8);
    }
}

/// The decimal text of an `i64` reads back as the same `i64`: formatting
/// with `{}` and parsing with `str::parse` are inverse, for every value
/// (negative ones and those beyond 32 bits included).
pub proof fn law_i64_decimal_parses_back(v: i64)
    ensures
        parse_i64_spec(i64_decimal(v)) == Some(v),
{
    if v < 0 {
        let m = (0 - v) as nat;
        lemma_decimal_digits_value(m);
        let b = i64_decimal(v);
        assert(b[0] == 45u8);
        assert(b.drop_first() =~= decimal_digits(m));
    } else {
        lemma_decimal_digits_value(v as nat);
    }
}


/// The decimal digits of a `u64` read back as the same `u64`.
pub proof fn law_u64_decimal_parses_back(v: u64)
    ensures
        parse_u64_spec(decimal_digits(v as nat)) == Some(v),
        all_digits(decimal_digits(v as nat)),
{
    lemma_decimal_digits_value(v as nat);
}

} // verus!
