//! Telegram Mini App `initData` verification.
//!
//! `initData` is a URL-encoded query string. Its `hash` field must equal the
//! lowercase hex HMAC-SHA256 of the data-check-string (the other `key=value`
//! pairs sorted by key and joined by `\n`) keyed with
//! HMAC-SHA256("WebAppData", bot token).

use vstd::prelude::*;
use vstd::string::*;
use vstd::utf8::*;

use crate::crypto::{hmac_sha256, spec_hmac_sha256};
use crate::numeric::{hex_lower, parse_i64, parse_i64_spec, push_hex_lower};
use crate::text::lossy_string;

verus! {

broadcast use vstd::seq::group_seq_axioms;

// ---------------------------------------------------------------------------
// Percent decoding
// ---------------------------------------------------------------------------

/// `str::is_char_boundary` on the bytes of a string.
pub open spec fn char_boundary(b: Seq<u8>, k: int) -> bool {
    ||| k == 0
    ||| k == b.len()
    ||| (0 <= k < b.len() && (b[k] < 0x80 || b[k] >= 0xc0))
}

/// An ASCII hexadecimal digit, either case.
pub open spec fn is_hex_digit(c: u8) -> bool {
    ||| 48 <= c <= 57
    ||| 65 <= c <= 70
    ||| 97 <= c <= 102
}

pub open spec fn hex_digit_value(c: u8) -> u8 {
    if 48 <= c <= 57 {
        (c - 48) as u8
    } else if 65 <= c <= 70 {
        (c - 55) as u8
    } else {
        (c - 87) as u8
    }
}

/// The byte that the escape `%ab` stands for: two hex digits.
pub open spec fn radix16_pair(a: u8, b: u8) -> Option<u8> {
    if is_hex_digit(a) && is_hex_digit(b) {
        Some((hex_digit_value(a) * 16 + hex_digit_value(b)) as u8)
    } else {
        None
    }
}

/// The bytes produced by decoding `b` from position `i` on: `%XY` with
/// a valid `XY` is one byte, `+` is a space, any other byte is kept.
pub open spec fn decode_from(b: Seq<u8>, i: int) -> Seq<u8>
    decreases b.len() - i,
{
    if i < 0 || i >= b.len() {
        Seq::empty()
    } else if b[i] == 37 && b.len() - i > 2 {
        match radix16_pair(b[i + 1], b[i + 2]) {
            Some(v) => seq![v] + decode_from(b, i + 3),
            None => seq![37u8] + decode_from(b, i + 1),
        }
    } else if b[i] == 43 {
        seq![32u8] + decode_from(b, i + 1)
    } else {
        seq![b[i]] + decode_from(b, i + 1)
    }
}

/// Whether decoding from position `i` reaches a `%` whose two following bytes
/// are not a valid escape and do not lie on character boundaries: there
/// slicing the string panics.
pub open spec fn decode_faults_from(b: Seq<u8>, i: int) -> bool
    decreases b.len() - i,
{
    if i < 0 || i >= b.len() {
        false
    } else if b[i] == 37 && b.len() - i > 2 {
        match radix16_pair(b[i + 1], b[i + 2]) {
            Some(v) => decode_faults_from(b, i + 3),
            None => !char_boundary(b, i + 1) || !char_boundary(b, i + 3) || decode_faults_from(
                b,
                i + 1,
            ),
        }
    } else {
        decode_faults_from(b, i + 1)
    }
}

/// Percent decoding of a whole byte string.
pub open spec fn percent_decoded(b: Seq<u8>) -> Seq<u8> {
    decode_from(b, 0)
}

/// Decoding the string does not panic.
pub open spec fn percent_decodable(b: Seq<u8>) -> bool {
    !decode_faults_from(b, 0)
}

fn is_hex_digit_byte(c: u8) -> (r: bool)
    ensures
        r == is_hex_digit(c),
{
    (48 <= c && c <= 57) || (65 <= c && c <= 70) || (97 <= c && c <= 102)
}

fn radix16(a: u8, b: u8) -> (r: Option<u8>)
    ensures
        r == radix16_pair(a, b),
{
    if is_hex_digit_byte(a) && is_hex_digit_byte(b) {
        let ha = if a <= 57 { a - 48 } else if a <= 70 { a - 55 } else { a - 87 };
        let hb = if b <= 57 { b - 48 } else if b <= 70 { b - 55 } else { b - 87 };
        Some(ha * 16 + hb)
    } else {
        None
    }
}

fn is_boundary(b: &[u8], k: usize) -> (r: bool)
    ensures
        r == char_boundary(b@, k as int),
{
    k == 0 || k == b.len() || (k < b.len() && (b[k] < 0x80 || b[k] >= 0xc0))
}

/// Whether percent decoding `b` runs without panicking.
pub fn is_percent_decodable(b: &[u8]) -> (r: bool)
    ensures
        r == percent_decodable(b@),
{
    let mut i: usize = 0;
    while i < b.len()
        invariant
            0 <= i <= b@.len(),
            decode_faults_from(b@, 0) == decode_faults_from(b@, i as int),
        decreases b@.len() - i,
    {
        if b[i] == 37 && b.len() - i > 2 {
            match radix16(b[i + 1], b[i + 2]) {
                Some(_) => {
                    i = i + 3;
                },
                None => {
                    if !is_boundary(b, i + 1) || !is_boundary(b, i + 3) {
                        return false;
                    }
                    i = i + 1;
                },
            }
        } else {
            i = i + 1;
        }
    }
    true
}

/// Percent decoding of the bytes of a URL-encoded component.
pub fn percent_decode_bytes(b: &[u8]) -> (out: Vec<u8>)
    requires
        percent_decodable(b@),
    ensures
        out@ == percent_decoded(b@),
{
    let mut out: Vec<u8> = Vec::with_capacity(b.len());
    let mut i: usize = 0;
    while i < b.len()
        invariant
            0 <= i <= b@.len(),
            out@ + decode_from(b@, i as int) == decode_from(b@, 0),
            !decode_faults_from(b@, i as int),
        decreases b@.len() - i,
    {
        let ghost before = out@;
        if b[i] == 37 && b.len() - i > 2 {
            match radix16(b[i + 1], b[i + 2]) {
                Some(v) => {
                    out.push(v);
                    proof {
                        assert(before + decode_from(b@, i as int) =~= out@ + decode_from(
                            b@,
                            i + 3,
                        ));
                    }
                    i = i + 3;
                },
                None => {
                    out.push(37u8);
                    proof {
                        assert(before + decode_from(b@, i as int) =~= out@ + decode_from(
                            b@,
                            i + 1,
                        ));
                    }
                    i = i + 1;
                },
            }
        } else if b[i] == 43 {
            out.push(32u8);
            proof {
                assert(before + decode_from(b@, i as int) =~= out@ + decode_from(b@, i + 1));
            }
            i = i + 1;
        } else {
            out.push(b[i]);
            proof {
                assert(before + decode_from(b@, i as int) =~= out@ + decode_from(b@, i + 1));
            }
            i = i + 1;
        }
    }
    proof {
        assert(out@ + decode_from(b@, i as int) =~= out@);
    }
    out
}

/// Decoding from position `i` gives at most one byte per input byte left.
pub proof fn lemma_decode_from_len(b: Seq<u8>, i: int)
    ensures
        0 <= i <= b.len() ==> decode_from(b, i).len() <= b.len() - i,
    decreases b.len() - i,
{
    if 0 <= i < b.len() {
        lemma_decode_from_len(b, i + 1);
        if b[i] == 37 && b.len() - i > 2 {
            lemma_decode_from_len(b, i + 3);
        }
    }
}

/// The text that decoding a URL-encoded component with bytes `b` yields.
pub open spec fn decoded_text(b: Seq<u8>) -> Seq<char> {
    crate::text::lossy_text(percent_decoded(b))
}

/// Decodes a URL-encoded component: `%XY` escapes and `+` as space, then
/// bytes that are not UTF-8 replaced with U+FFFD.
pub fn percent_decode(b: &[u8]) -> (s: String)
    requires
        percent_decodable(b@),
    ensures
        s@ == decoded_text(b@),
        s@.len() <= b@.len(),
{
    proof {
        lemma_decode_from_len(b@, 0);
    }
    let out = percent_decode_bytes(b);
    lossy_string(out.as_slice())
}

// ---------------------------------------------------------------------------
// Splitting into key/value pairs
// ---------------------------------------------------------------------------

/// `str::split(sep)` from position `i`, the current piece starting at `start`.
pub open spec fn split_from(s: Seq<u8>, sep: u8, start: int, i: int) -> Seq<Seq<u8>>
    decreases s.len() - i,
{
    if i < 0 || i >= s.len() {
        seq![s.subrange(start, s.len() as int)]
    } else if s[i] == sep {
        seq![s.subrange(start, i)] + split_from(s, sep, i + 1, i + 1)
    } else {
        split_from(s, sep, start, i + 1)
    }
}

/// `str::split(sep)`: the pieces between separators, empty ones included.
pub open spec fn split_bytes(s: Seq<u8>, sep: u8) -> Seq<Seq<u8>> {
    split_from(s, sep, 0, 0)
}

/// Position of the first `c` in `p` at or after `i`, or `p.len()`.
pub open spec fn position_from(p: Seq<u8>, c: u8, i: int) -> int
    decreases p.len() - i,
{
    if i < 0 || i >= p.len() {
        p.len() as int
    } else if p[i] == c {
        i
    } else {
        position_from(p, c, i + 1)
    }
}

/// The part of a `key=value` piece before its first `=`.
pub open spec fn piece_key(p: Seq<u8>) -> Seq<u8> {
    p.subrange(0, position_from(p, 61, 0))
}

/// The part of a `key=value` piece after its first `=`; empty without `=`.
pub open spec fn piece_value(p: Seq<u8>) -> Seq<u8> {
    let k = position_from(p, 61, 0);
    if k < p.len() {
        p.subrange(k + 1, p.len() as int)
    } else {
        Seq::empty()
    }
}

/// Both halves of a piece decode without panicking.
pub open spec fn piece_decodable(p: Seq<u8>) -> bool {
    percent_decodable(piece_key(p)) && percent_decodable(piece_value(p))
}

/// The decoded `(key, value)` of a piece.
pub open spec fn decoded_piece(p: Seq<u8>) -> (Seq<char>, Seq<char>) {
    (decoded_text(piece_key(p)), decoded_text(piece_value(p)))
}

/// Every `&`-separated piece of the init data decodes without panicking.
pub open spec fn init_data_decodable(s: Seq<u8>) -> bool {
    let pieces = split_bytes(s, 38);
    forall|j: int| 0 <= j < pieces.len() ==> piece_decodable(#[trigger] pieces[j])
}

/// The decoded `(key, value)` pairs of an init data string, in order.
pub open spec fn init_data_pairs(s: Seq<u8>) -> Seq<(Seq<char>, Seq<char>)> {
    split_bytes(s, 38).map_values(|p: Seq<u8>| decoded_piece(p))
}

/// The text of a sequence of `String` pairs.
pub open spec fn pairs_view(v: Seq<(String, String)>) -> Seq<(Seq<char>, Seq<char>)> {
    v.map_values(|p: (String, String)| (p.0@, p.1@))
}

proof fn lemma_split_from_len(s: Seq<u8>, sep: u8, start: int, i: int)
    ensures
        split_from(s, sep, start, i).len() >= 1,
        split_from(s, sep, start, i)[0] == (if exists|j: int| i <= j < s.len() && s[j] == sep {
            s.subrange(start, position_from(s, sep, i))
        } else {
            s.subrange(start, s.len() as int)
        }),
    decreases s.len() - i,
{
    if i < 0 || i >= s.len() {
    } else if s[i] == sep {
    } else {
        lemma_split_from_len(s, sep, start, i + 1);
        if exists|j: int| i <= j < s.len() && s[j] == sep {
            let j = choose|j: int| i <= j < s.len() && s[j] == sep;
            assert(i + 1 <= j);
        }
        if exists|j: int| i + 1 <= j < s.len() && s[j] == sep {
            let j = choose|j: int| i + 1 <= j < s.len() && s[j] == sep;
            assert(i <= j);
        }
    }
}

/// Decodes one `key=value` piece.
fn decode_piece(p: &[u8]) -> (r: (String, String))
    requires
        piece_decodable(p@),
    ensures
        (r.0@, r.1@) == decoded_piece(p@),
{
    let mut k: usize = 0;
    while k < p.len() && p[k] != 61
        invariant
            0 <= k <= p@.len(),
            position_from(p@, 61, 0) == position_from(p@, 61, k as int),
        decreases p@.len() - k,
    {
        k = k + 1;
    }
    let key = percent_decode(&p[0..k]);
    let value = if k < p.len() {
        percent_decode(&p[k + 1..p.len()])
    } else {
        proof {
            assert(p@.subrange(p@.len() as int, p@.len() as int) =~= Seq::<u8>::empty());
        }
        percent_decode(&p[p.len()..p.len()])
    };
    (key, value)
}

/// Splits `init_data` on `&` and decodes each `key=value` piece.
pub fn parse_init_data(init_data: &str) -> (pairs: Vec<(String, String)>)
    requires
        init_data_decodable(init_data.spec_bytes()),
    ensures
        pairs_view(pairs@) == init_data_pairs(init_data.spec_bytes()),
{
    let b = init_data.as_bytes();
    let ghost whole = split_bytes(b@, 38);
    let mut pairs: Vec<(String, String)> = Vec::new();
    let mut start: usize = 0;
    let mut i: usize = 0;
    proof {
        lemma_split_from_len(b@, 38, 0, 0);
        assert(pairs_view(pairs@) =~= whole.subrange(0, 0).map_values(|p: Seq<u8>| decoded_piece(p)));
        assert(whole =~= pieces_before(0, whole) + split_from(b@, 38, 0, 0));
    }
    while i < b.len()
        invariant
            b@ == init_data.spec_bytes(),
            whole == split_bytes(b@, 38),
            init_data_decodable(b@),
            0 <= start <= i <= b@.len(),
            whole == pieces_before(pairs@.len(), whole) + split_from(b@, 38, start as int, i as int),
            pairs_view(pairs@) == whole.subrange(0, pairs@.len() as int).map_values(
                |p: Seq<u8>| decoded_piece(p),
            ),
            pairs@.len() < whole.len(),
        decreases b@.len() - i,
    {
        if b[i] == 38 {
            let ghost n = pairs@.len();
            let piece = &b[start..i];
            proof {
                let rest = split_from(b@, 38, start as int, i as int);
                assert(rest == seq![b@.subrange(start as int, i as int)] + split_from(
                    b@,
                    38,
                    i + 1,
                    i + 1,
                ));
                assert(whole[n as int] == rest[0]);
                assert(piece_decodable(whole[n as int]));
            }
            let ghost old_pairs = pairs@;
            let pair = decode_piece(piece);
            pairs.push(pair);
            proof {
                assert(piece@ == whole[n as int]);
                assert forall|j: int| 0 <= j < n + 1 implies #[trigger] pairs_view(pairs@)[j]
                    == whole.subrange(0, (n + 1) as int).map_values(|p: Seq<u8>| decoded_piece(p))[j] by {
                    if j < n {
                        assert(pairs@[j] == old_pairs[j]);
                        assert(pairs_view(old_pairs)[j] == whole.subrange(0, n as int).map_values(|p: Seq<u8>| decoded_piece(p))[j]);
                    }
                }
                let rest = split_from(b@, 38, start as int, i as int);
                let tail = split_from(b@, 38, i + 1, i + 1);
                assert(pieces_before(n + 1, whole) =~= pieces_before(n, whole) + seq![rest[0]]);
                assert(whole =~= pieces_before(n + 1, whole) + tail);
                assert(pairs_view(pairs@) =~= whole.subrange(0, (n + 1) as int).map_values(
                    |p: Seq<u8>| decoded_piece(p),
                ));
                assert(tail.len() >= 1) by {
                    lemma_split_from_len(b@, 38, i + 1, i + 1);
                }
            }
            start = i + 1;
        }
        i = i + 1;
    }
    let ghost n = pairs@.len();
    proof {
        let rest = split_from(b@, 38, start as int, i as int);
        assert(rest == seq![b@.subrange(start as int, b@.len() as int)]);
        assert(whole[n as int] == rest[0]);
        assert(piece_decodable(whole[n as int]));
    }
    let ghost old_pairs = pairs@;
    let last_piece = &b[start..b.len()];
    let last = decode_piece(last_piece);
    pairs.push(last);
    proof {
        assert(last_piece@ == whole[n as int]);
        assert forall|j: int| 0 <= j < n + 1 implies #[trigger] pairs_view(pairs@)[j]
            == whole.map_values(|p: Seq<u8>| decoded_piece(p))[j] by {
            if j < n {
                assert(pairs@[j] == old_pairs[j]);
                assert(pairs_view(old_pairs)[j] == whole.subrange(0, n as int).map_values(|p: Seq<u8>| decoded_piece(p))[j]);
            }
        }
        let rest = split_from(b@, 38, start as int, i as int);
        assert(whole =~= pieces_before(n, whole) + rest);
        assert(whole.subrange(0, (n + 1) as int) =~= whole);
        assert(pairs_view(pairs@) =~= whole.map_values(|p: Seq<u8>| decoded_piece(p)));
    }
    pairs
}

/// The first `n` pieces.
pub open spec fn pieces_before(n: nat, whole: Seq<Seq<u8>>) -> Seq<Seq<u8>> {
    whole.subrange(0, n as int)
}

/// Whether every piece of `init_data` can be decoded; when it cannot,
/// decoding would slice a string inside a character and panic, so callers
/// test this first.
pub fn init_data_is_decodable(init_data: &str) -> (r: bool)
    ensures
        r == init_data_decodable(init_data.spec_bytes()),
{
    let b = init_data.as_bytes();
    let ghost whole = split_bytes(b@, 38);
    let mut count: usize = 0;
    let mut start: usize = 0;
    let mut i: usize = 0;
    proof {
        lemma_split_from_len(b@, 38, 0, 0);
        assert(whole =~= pieces_before(0, whole) + split_from(b@, 38, 0, 0));
    }
    while i < b.len()
        invariant
            b@ == init_data.spec_bytes(),
            whole == split_bytes(b@, 38),
            0 <= start <= i <= b@.len(),
            count <= start,
            count < whole.len(),
            whole == pieces_before(count as nat, whole) + split_from(b@, 38, start as int, i as int),
            forall|j: int| 0 <= j < count ==> piece_decodable(#[trigger] whole[j]),
        decreases b@.len() - i,
    {
        if b[i] == 38 {
            let ghost n = count as nat;
            let ok = piece_is_decodable(&b[start..i]);
            proof {
                let rest = split_from(b@, 38, start as int, i as int);
                assert(rest == seq![b@.subrange(start as int, i as int)] + split_from(
                    b@,
                    38,
                    i + 1,
                    i + 1,
                ));
                assert(whole[n as int] == rest[0]);
            }
            if !ok {
                return false;
            }
            proof {
                let rest = split_from(b@, 38, start as int, i as int);
                let tail = split_from(b@, 38, i + 1, i + 1);
                assert(pieces_before(n + 1, whole) =~= pieces_before(n, whole) + seq![rest[0]]);
                assert(whole =~= pieces_before(n + 1, whole) + tail);
                lemma_split_from_len(b@, 38, i + 1, i + 1);
            }
            count = count + 1;
            start = i + 1;
        }
        i = i + 1;
    }
    let ghost n = count as nat;
    let ok = piece_is_decodable(&b[start..b.len()]);
    proof {
        let rest = split_from(b@, 38, start as int, i as int);
        assert(rest == seq![b@.subrange(start as int, b@.len() as int)]);
        assert(whole[n as int] == rest[0]);
        assert(whole.len() == n + 1);
    }
    ok
}

fn piece_is_decodable(p: &[u8]) -> (r: bool)
    ensures
        r == piece_decodable(p@),
{
    let mut k: usize = 0;
    while k < p.len() && p[k] != 61
        invariant
            0 <= k <= p@.len(),
            position_from(p@, 61, 0) == position_from(p@, 61, k as int),
        decreases p@.len() - k,
    {
        k = k + 1;
    }
    if !is_percent_decodable(&p[0..k]) {
        return false;
    }
    if k < p.len() {
        is_percent_decodable(&p[k + 1..p.len()])
    } else {
        proof {
            assert(p@.subrange(p@.len() as int, p@.len() as int) =~= Seq::<u8>::empty());
        }
        is_percent_decodable(&p[p.len()..p.len()])
    }
}


// ---------------------------------------------------------------------------
// Pair lookup, filtering and ordering
// ---------------------------------------------------------------------------

/// The UTF-8 bytes of a pair's key.
pub open spec fn key_bytes(p: (Seq<char>, Seq<char>)) -> Seq<u8> {
    encode_utf8(p.0)
}

/// Byte-wise lexicographic order, as `Ord` for `str` compares.
pub open spec fn bytes_lt(a: Seq<u8>, b: Seq<u8>) -> bool
    decreases a.len(),
{
    if a.len() == 0 {
        b.len() > 0
    } else if b.len() == 0 {
        false
    } else if a[0] != b[0] {
        a[0] < b[0]
    } else {
        bytes_lt(a.drop_first(), b.drop_first())
    }
}

fn bytes_less(a: &[u8], b: &[u8]) -> (r: bool)
    ensures
        r == bytes_lt(a@, b@),
{
    let mut i: usize = 0;
    proof {
        assert(a@.skip(0) =~= a@);
        assert(b@.skip(0) =~= b@);
    }
    while i < a.len() && i < b.len() && a[i] == b[i]
        invariant
            i <= a@.len(),
            i <= b@.len(),
            bytes_lt(a@, b@) == bytes_lt(a@.skip(i as int), b@.skip(i as int)),
        decreases a@.len() - i,
    {
        proof {
            assert(a@.skip(i as int).drop_first() =~= a@.skip(i + 1));
            assert(b@.skip(i as int).drop_first() =~= b@.skip(i + 1));
        }
        i = i + 1;
    }
    if i < a.len() && i < b.len() {
        a[i] < b[i]
    } else {
        i < b.len()
    }
}

fn bytes_equal(a: &[u8], b: &[u8]) -> (r: bool)
    ensures
        r == (a@ == b@),
{
    if a.len() != b.len() {
        return false;
    }
    let mut i: usize = 0;
    while i < a.len()
        invariant
            a@.len() == b@.len(),
            i <= a@.len(),
            forall|j: int| 0 <= j < i ==> a@[j] == b@[j],
        decreases a@.len() - i,
    {
        if a[i] != b[i] {
            return false;
        }
        i = i + 1;
    }
    proof {
        assert(a@ =~= b@);
    }
    true
}

/// The value of the first pair whose key bytes are `key`.
pub open spec fn find_value_from(s: Seq<(Seq<char>, Seq<char>)>, key: Seq<u8>, i: int) -> Option<
    Seq<char>,
>
    decreases s.len() - i,
{
    if i < 0 || i >= s.len() {
        None
    } else if key_bytes(s[i]) == key {
        Some(s[i].1)
    } else {
        find_value_from(s, key, i + 1)
    }
}

pub open spec fn find_value(s: Seq<(Seq<char>, Seq<char>)>, key: Seq<u8>) -> Option<Seq<char>> {
    find_value_from(s, key, 0)
}

/// Clones the value of the first pair whose key is `key`.
fn find_pair_value(pairs: &Vec<(String, String)>, key: &[u8]) -> (r: Option<String>)
    ensures
        match r {
            Some(v) => find_value(pairs_view(pairs@), key@) == Some(v@),
            None => find_value(pairs_view(pairs@), key@) is None,
        },
{
    let ghost s = pairs_view(pairs@);
    let mut i: usize = 0;
    while i < pairs.len()
        invariant
            i <= pairs@.len(),
            s == pairs_view(pairs@),
            find_value_from(s, key@, 0) == find_value_from(s, key@, i as int),
        decreases pairs@.len() - i,
    {
        if bytes_equal(pairs[i].0.as_str().as_bytes(), key) {
            return Some(pairs[i].1.clone());
        }
        i = i + 1;
    }
    None
}

/// The pairs whose key bytes differ from `key`, in order.
pub open spec fn without_key(s: Seq<(Seq<char>, Seq<char>)>, key: Seq<u8>) -> Seq<
    (Seq<char>, Seq<char>),
>
    decreases s.len(),
{
    if s.len() == 0 {
        s
    } else {
        let r = without_key(s.drop_last(), key);
        if key_bytes(s.last()) == key {
            r
        } else {
            r.push(s.last())
        }
    }
}

fn clone_pair(p: &(String, String)) -> (r: (String, String))
    ensures
        r.0@ == p.0@,
        r.1@ == p.1@,
{
    (p.0.clone(), p.1.clone())
}

/// Clones the pairs whose key differs from `key`.
fn pairs_without_key(pairs: &Vec<(String, String)>, key: &[u8]) -> (r: Vec<(String, String)>)
    ensures
        pairs_view(r@) == without_key(pairs_view(pairs@), key@),
{
    let ghost s = pairs_view(pairs@);
    let mut out: Vec<(String, String)> = Vec::new();
    let mut i: usize = 0;
    while i < pairs.len()
        invariant
            i <= pairs@.len(),
            s == pairs_view(pairs@),
            pairs_view(out@) == without_key(s.subrange(0, i as int), key@),
        decreases pairs@.len() - i,
    {
        let ghost before = out@;
        proof {
            assert(s.subrange(0, i + 1).drop_last() =~= s.subrange(0, i as int));
        }
        if !bytes_equal(pairs[i].0.as_str().as_bytes(), key) {
            let c = clone_pair(&pairs[i]);
            out.push(c);
            proof {
                assert(pairs_view(out@) =~= pairs_view(before).push(s[i as int]));
            }
        }
        i = i + 1;
    }
    proof {
        assert(s.subrange(0, pairs@.len() as int) =~= s);
    }
    out
}

/// Where a stable insertion places `x` in `t`: before the first pair whose
/// key is greater than the key of `x`.
pub open spec fn insert_position(t: Seq<(Seq<char>, Seq<char>)>, x: (Seq<char>, Seq<char>), j: int) -> int
    decreases t.len() - j,
{
    if j < 0 || j >= t.len() {
        t.len() as int
    } else if bytes_lt(key_bytes(x), key_bytes(t[j])) {
        j
    } else {
        insert_position(t, x, j + 1)
    }
}

/// Stable sort of the pairs by key (byte order), as `sort_by` comparing
/// keys with `cmp` produces.
pub open spec fn sorted_by_key(s: Seq<(Seq<char>, Seq<char>)>) -> Seq<(Seq<char>, Seq<char>)>
    decreases s.len(),
{
    if s.len() == 0 {
        s
    } else {
        let t = sorted_by_key(s.drop_last());
        t.insert(insert_position(t, s.last(), 0), s.last())
    }
}

proof fn lemma_insert_position_bounds(t: Seq<(Seq<char>, Seq<char>)>, x: (Seq<char>, Seq<char>), j: int)
    requires
        0 <= j <= t.len(),
    ensures
        j <= insert_position(t, x, j) <= t.len(),
    decreases t.len() - j,
{
    if j < t.len() && !bytes_lt(key_bytes(x), key_bytes(t[j])) {
        lemma_insert_position_bounds(t, x, j + 1);
    }
}

/// Sorts the pairs by key, keeping pairs with equal keys in their order.
fn sort_pairs_by_key(v: &Vec<(String, String)>) -> (r: Vec<(String, String)>)
    ensures
        pairs_view(r@) == sorted_by_key(pairs_view(v@)),
{
    let ghost s = pairs_view(v@);
    let mut out: Vec<(String, String)> = Vec::new();
    let mut i: usize = 0;
    while i < v.len()
        invariant
            i <= v@.len(),
            s == pairs_view(v@),
            pairs_view(out@) == sorted_by_key(s.subrange(0, i as int)),
        decreases v@.len() - i,
    {
        let x = clone_pair(&v[i]);
        let ghost t = pairs_view(out@);
        let ghost xv = s[i as int];
        assert(xv == (x.0@, x.1@));
        let mut j: usize = 0;
        let mut found = false;
        while !found && j < out.len()
            invariant
                t == pairs_view(out@),
                xv == (x.0@, x.1@),
                j <= out@.len(),
                insert_position(t, xv, 0) == insert_position(t, xv, j as int),
                found ==> j < out@.len() && bytes_lt(key_bytes(xv), key_bytes(t[j as int])),
            decreases out@.len() - j, (if found { 0int } else { 1int }),
        {
            assert(t[j as int] == (out@[j as int].0@, out@[j as int].1@));
            if bytes_less(x.0.as_str().as_bytes(), out[j].0.as_str().as_bytes()) {
                found = true;
            } else {
                j = j + 1;
            }
        }
        let ghost before = out@;
        out.insert(j, x);
        proof {
            assert(s.subrange(0, i + 1).drop_last() =~= s.subrange(0, i as int));
            assert(s.subrange(0, i + 1).last() == xv);
            assert(insert_position(t, xv, j as int) == j);
            assert(pairs_view(out@) =~= t.insert(j as int, xv));
        }
        i = i + 1;
    }
    proof {
        assert(s.subrange(0, v@.len() as int) =~= s);
    }
    out
}

/// The bytes of one data-check line: `key=value`.
pub open spec fn pair_line(p: (Seq<char>, Seq<char>)) -> Seq<u8> {
    encode_utf8(p.0) + seq![61u8] + encode_utf8(p.1)
}

/// The data-check-string: the lines of the pairs joined by `\n`.
pub open spec fn join_lines(s: Seq<(Seq<char>, Seq<char>)>) -> Seq<u8>
    decreases s.len(),
{
    if s.len() == 0 {
        Seq::empty()
    } else if s.len() == 1 {
        pair_line(s[0])
    } else {
        join_lines(s.drop_last()) + seq![10u8] + pair_line(s.last())
    }
}

fn data_check_bytes(pairs: &Vec<(String, String)>) -> (r: Vec<u8>)
    ensures
        r@ == join_lines(pairs_view(pairs@)),
{
    let ghost s = pairs_view(pairs@);
    let mut out: Vec<u8> = Vec::new();
    let mut i: usize = 0;
    while i < pairs.len()
        invariant
            i <= pairs@.len(),
            s == pairs_view(pairs@),
            out@ == join_lines(s.subrange(0, i as int)),
        decreases pairs@.len() - i,
    {
        let ghost before = out@;
        if i > 0 {
            out.push(10u8);
        }
        out.extend_from_slice(pairs[i].0.as_str().as_bytes());
        out.push(61u8);
        out.extend_from_slice(pairs[i].1.as_str().as_bytes());
        proof {
            let sub = s.subrange(0, i + 1);
            assert(sub.drop_last() =~= s.subrange(0, i as int));
            assert(sub.last() == s[i as int]);
            if i > 0 {
                assert(out@ =~= before + seq![10u8] + pair_line(s[i as int]));
            } else {
                assert(sub[0] == s[0]);
                assert(out@ =~= pair_line(s[0]));
            }
        }
        i = i + 1;
    }
    proof {
        assert(s.subrange(0, pairs@.len() as int) =~= s);
    }
    out
}

// ---------------------------------------------------------------------------
// Verification
// ---------------------------------------------------------------------------

/// `hash`
pub open spec fn hash_key() -> Seq<u8> {
    seq![104u8, 97, 115, 104]
}

/// `auth_date`
pub open spec fn auth_date_key() -> Seq<u8> {
    seq![97u8, 117, 116, 104, 95, 100, 97, 116, 101]
}

/// `user`
pub open spec fn user_key() -> Seq<u8> {
    seq![117u8, 115, 101, 114]
}

/// `WebAppData`, the key of the first HMAC.
pub open spec fn web_app_data() -> Seq<u8> {
    seq![87u8, 101, 98, 65, 112, 112, 68, 97, 116, 97]
}

/// Seconds after which signed init data counts as stale.
pub open spec fn max_age_seconds() -> int {
    86_400
}

/// The data-check-string of decoded pairs: the non-`hash` pairs sorted by key.
pub open spec fn data_check_string(pairs: Seq<(Seq<char>, Seq<char>)>) -> Seq<u8> {
    join_lines(sorted_by_key(without_key(pairs, hash_key())))
}

/// The lowercase hex HMAC that a genuine `hash` field holds.
pub open spec fn expected_hash(pairs: Seq<(Seq<char>, Seq<char>)>, bot_token: Seq<u8>) -> Seq<u8> {
    hex_lower(spec_hmac_sha256(spec_hmac_sha256(web_app_data(), bot_token), data_check_string(pairs)))
}

/// An `auth_date` that parses as an `i64` lying more than a day before `now`.
pub open spec fn is_stale(auth_date: Option<Seq<char>>, now: i64) -> bool {
    match auth_date {
        Some(v) => match parse_i64_spec(encode_utf8(v)) {
            Some(d) => now - d > max_age_seconds(),
            None => false,
        },
        None => false,
    }
}

pub open spec fn missing_hash_message() -> Seq<char> {
    "Missing hash field in Telegram initData"@
}

pub open spec fn hmac_mismatch_message() -> Seq<char> {
    "Telegram initData HMAC verification failed — invalid or tampered data"@
}

pub open spec fn expired_message() -> Seq<char> {
    "Telegram initData is expired (older than 24 hours)"@
}

pub open spec fn missing_user_message() -> Seq<char> {
    "Missing user field in Telegram initData"@
}

/// The outcome of verifying init data whose bytes are `init` against the
/// bot token bytes `bot_token` at Unix time `now`: the raw `user` JSON, or
/// the reason for rejection.
pub open spec fn init_data_verdict(init: Seq<u8>, bot_token: Seq<u8>, now: i64) -> Result<
    Seq<char>,
    Seq<char>,
> {
    pairs_verdict(init_data_pairs(init), bot_token, now)
}

/// The outcome of verifying the decoded pairs of init data.
pub open spec fn pairs_verdict(pairs: Seq<(Seq<char>, Seq<char>)>, bot_token: Seq<u8>, now: i64) -> Result<
    Seq<char>,
    Seq<char>,
> {
    match find_value(pairs, hash_key()) {
        None => Err(missing_hash_message()),
        Some(hash) => if encode_utf8(hash) != expected_hash(pairs, bot_token) {
            Err(hmac_mismatch_message())
        } else if is_stale(
            find_value(sorted_by_key(without_key(pairs, hash_key())), auth_date_key()),
            now,
        ) {
            Err(expired_message())
        } else {
            match find_value(pairs, user_key()) {
                None => Err(missing_user_message()),
                Some(user) => Ok(user),
            }
        },
    }
}

/// A result of verification agrees with a verdict.
pub open spec fn result_is(r: Result<String, String>, v: Result<Seq<char>, Seq<char>>) -> bool {
    match r {
        Ok(user) => v == Ok::<Seq<char>, Seq<char>>(user@),
        Err(e) => v == Err::<Seq<char>, Seq<char>>(e@),
    }
}

/// Verifies Telegram Mini App init data at Unix time `now` and returns the
/// raw JSON of its `user` field.
pub fn verify_telegram_init_data_at(init_data: &str, bot_token: &str, now: i64) -> (r: Result<
    String,
    String,
>)
    requires
        init_data_decodable(init_data.spec_bytes()),
    ensures
        result_is(r, init_data_verdict(init_data.spec_bytes(), bot_token.spec_bytes(), now)),
{
    let pairs = parse_init_data(init_data);
    let ghost pv = pairs_view(pairs@);
    let hash_name: Vec<u8> = vec![104u8, 97, 115, 104];
    proof {
        assert(hash_name@ =~= hash_key());
    }
    let hash = match find_pair_value(&pairs, hash_name.as_slice()) {
        Some(h) => h,
        None => {
            return Err(String::from_str("Missing hash field in Telegram initData"));
        },
    };
    let check_pairs = sort_pairs_by_key(&pairs_without_key(&pairs, hash_name.as_slice()));
    let data_check = data_check_bytes(&check_pairs);
    let web_app: Vec<u8> = vec![87u8, 101, 98, 65, 112, 112, 68, 97, 116, 97];
    proof {
        assert(web_app@ =~= web_app_data());
    }
    let secret = hmac_sha256(web_app.as_slice(), bot_token.as_bytes());
    let computed = hmac_sha256(secret.as_slice(), data_check.as_slice());
    let mut computed_hex: Vec<u8> = Vec::new();
    push_hex_lower(&mut computed_hex, computed.as_slice());
    proof {
        assert(computed_hex@ =~= hex_lower(computed@));
    }
    if !bytes_equal(computed_hex.as_slice(), hash.as_str().as_bytes()) {
        return Err(
            String::from_str("Telegram initData HMAC verification failed — invalid or tampered data"),
        );
    }
    let auth_name: Vec<u8> = vec![97u8, 117, 116, 104, 95, 100, 97, 116, 101];
    proof {
        assert(auth_name@ =~= auth_date_key());
    }
    if let Some(auth_date) = find_pair_value(&check_pairs, auth_name.as_slice()) {
        if let Some(d) = parse_i64(auth_date.as_str().as_bytes()) {
            if (now as i128) - (d as i128) > 86_400 {
                return Err(String::from_str("Telegram initData is expired (older than 24 hours)"));
            }
        }
    }
    let user_name: Vec<u8> = vec![117u8, 115, 101, 114];
    proof {
        assert(user_name@ =~= user_key());
    }
    match find_pair_value(&pairs, user_name.as_slice()) {
        Some(user) => Ok(user),
        None => Err(String::from_str("Missing user field in Telegram initData")),
    }
}

/// Verifies Telegram Mini App init data against the bot token at the current
/// time and returns the raw JSON of its `user` field.
pub fn verify_telegram_init_data(init_data: &str, bot_token: &str) -> (r: Result<String, String>)
    requires
        init_data_decodable(init_data.spec_bytes()),
    ensures
        exists|now: i64|
            crate::clock::seconds_clock_reading(now) && result_is(
                r,
                #[trigger] init_data_verdict(init_data.spec_bytes(), bot_token.spec_bytes(), now),
            ),
{
    let now = crate::clock::read_seconds_clock();
    let r = verify_telegram_init_data_at(init_data, bot_token, now);
    assert(result_is(r, init_data_verdict(init_data.spec_bytes(), bot_token.spec_bytes(), now)));
    r
}

/// The Telegram user described by verified init data.
pub struct TelegramUser {
    pub id: i64,
    pub first_name: Option<String>,
    pub last_name: Option<String>,
    pub username: Option<String>,
}

} // verus!
