//! Text utilities over UTF-8 bytes and `char` sequences: whitespace trimming,
//! ASCII string construction and equality checks.

use vstd::prelude::*;
use vstd::string::*;
use vstd::utf8::*;

verus! {

broadcast use vstd::seq::group_seq_axioms;

/// The characters of a byte sequence read one byte per character.
pub open spec fn ascii_chars(b: Seq<u8>) -> Seq<char> {
    Seq::new(b.len(), |i: int| b[i] as char)
}

/// Every byte is a 7-bit ASCII byte.
pub open spec fn all_ascii(b: Seq<u8>) -> bool {
    forall|i: int| 0 <= i < b.len() ==> #[trigger] b[i] < 128
}

/// ASCII bytes are valid UTF-8 and decode one character per byte.
pub proof fn lemma_ascii_decode(b: Seq<u8>)
    requires
        all_ascii(b),
    ensures
        valid_utf8(b),
        decode_utf8(b) == ascii_chars(b),
        encode_utf8(ascii_chars(b)) == b,
{
    let c = ascii_chars(b);
    assert forall|i: int| 0 <= i < c.len() implies '\0' <= #[trigger] c[i] <= '\u{7f}' by {
        assert(b[i] < 128);
    }
    assert(is_ascii_chars(c));
    is_ascii_chars_encode_utf8(c);
    assert forall|i: int| 0 <= i < b.len() implies encode_utf8(c)[i] == b[i] by {
        assert(c[i] as u8 == encode_utf8(c)[i]);
        assert(c[i] == b[i] as char);
    }
    assert(encode_utf8(c) =~= b);
    encode_utf8_valid_utf8(c);
    encode_utf8_decode_utf8(c);
}

/// What `String::from_utf8_lossy` makes of a byte sequence that is not
/// valid UTF-8 (each invalid sequence replaced with U+FFFD).
pub uninterp spec fn spec_utf8_lossy(bytes: Seq<u8>) -> Seq<char>;

/// `String::from_utf8_lossy`: valid UTF-8 is decoded as it stands.
pub open spec fn lossy_text(bytes: Seq<u8>) -> Seq<char> {
    if valid_utf8(bytes) {
        decode_utf8(bytes)
    } else {
        spec_utf8_lossy(bytes)
    }
}

/// Calls `String::from_utf8_lossy` and takes ownership of the result.
/// Trusted: as the std documentation states, valid UTF-8 comes back decoded
/// unchanged; for other input the result is the named lossy decoding, in
/// which each invalid sequence (at least one byte) becomes one U+FFFD, so it
/// has no more characters than there are bytes.
#[verifier::external_body]
fn utf8_lossy(bytes: &[u8]) -> (s: String)
    ensures
        valid_utf8(bytes@) ==> s@ == decode_utf8(bytes@),
        !valid_utf8(bytes@) ==> s@ == spec_utf8_lossy(bytes@),
        !valid_utf8(bytes@) ==> s@.len() <= bytes@.len(),
{
    String::from_utf8_lossy(bytes).into_owned()
}

/// Decodes bytes into a `String`, replacing invalid sequences with U+FFFD.
pub fn lossy_string(bytes: &[u8]) -> (s: String)
    ensures
        s@ == lossy_text(bytes@),
        s@.len() <= bytes@.len(),
{
    proof {
        if valid_utf8(bytes@) {
            lemma_decode_utf8_len(bytes@);
        }
    }
    utf8_lossy(bytes)
}

/// Decoding valid UTF-8 gives at most one character per byte.
pub proof fn lemma_decode_utf8_len(b: Seq<u8>)
    requires
        valid_utf8(b),
    ensures
        decode_utf8(b).len() <= b.len(),
    decreases b.len(),
{
    if b.len() > 0 {
        let n = length_of_first_scalar(b);
        assert(1 <= n <= b.len());
        let rest = pop_first_scalar(b);
        assert(rest.len() == b.len() - n);
        lemma_decode_utf8_len(rest);
    }
}

/// Builds a `String` from ASCII bytes.
pub fn ascii_string(bytes: &[u8]) -> (s: String)
    requires
        all_ascii(bytes@),
    ensures
        s@ == ascii_chars(bytes@),
{
    proof {
        lemma_ascii_decode(bytes@);
    }
    utf8_lossy(bytes)
}

/// Builds a `String` from valid UTF-8 bytes.
pub fn utf8_string(bytes: &[u8]) -> (s: String)
    requires
        valid_utf8(bytes@),
    ensures
        s@ == decode_utf8(bytes@),
        encode_utf8(s@) == bytes@,
{
    proof {
        decode_utf8_encode_utf8(bytes@);
    }
    utf8_lossy(bytes)
}

/// `char::is_whitespace`: the Unicode `White_Space` property.
pub open spec fn is_white_space(c: char) -> bool {
    let v = c as u32;
    ||| 0x9 <= v <= 0xd
    ||| v == 0x20
    ||| v == 0x85
    ||| v == 0xa0
    ||| v == 0x1680
    ||| 0x2000 <= v <= 0x200a
    ||| v == 0x2028
    ||| v == 0x2029
    ||| v == 0x202f
    ||| v == 0x205f
    ||| v == 0x3000
}

pub fn is_white_space_char(c: char) -> (b: bool)
    ensures
        b == is_white_space(c),
{
    let v = c as u32;
    (0x9 <= v && v <= 0xd) || v == 0x20 || v == 0x85 || v == 0xa0 || v == 0x1680 || (0x2000 <= v
        && v <= 0x200a) || v == 0x2028 || v == 0x2029 || v == 0x202f || v == 0x205f || v == 0x3000
}

/// Leading whitespace removed.
pub open spec fn trim_start(s: Seq<char>) -> Seq<char>
    decreases s.len(),
{
    if s.len() > 0 && is_white_space(s[0]) {
        trim_start(s.drop_first())
    } else {
        s
    }
}

/// Trailing whitespace removed.
pub open spec fn trim_end(s: Seq<char>) -> Seq<char>
    decreases s.len(),
{
    if s.len() > 0 && is_white_space(s.last()) {
        trim_end(s.drop_last())
    } else {
        s
    }
}

/// `str::trim`: leading and trailing whitespace removed.
pub open spec fn trim(s: Seq<char>) -> Seq<char> {
    trim_end(trim_start(s))
}

proof fn lemma_trim_start_skip(s: Seq<char>, i: int)
    requires
        0 <= i <= s.len(),
        forall|j: int| 0 <= j < i ==> is_white_space(#[trigger] s[j]),
    ensures
        trim_start(s) == trim_start(s.subrange(i, s.len() as int)),
    decreases i,
{
    if i > 0 {
        assert(s.len() > 0 && is_white_space(s[0]));
        let t = s.drop_first();
        assert forall|j: int| 0 <= j < i - 1 implies is_white_space(#[trigger] t[j]) by {
            assert(t[j] == s[j + 1]);
        }
        lemma_trim_start_skip(t, i - 1);
        assert(t.subrange(i - 1, t.len() as int) =~= s.subrange(i, s.len() as int));
    } else {
        assert(s.subrange(0, s.len() as int) =~= s);
    }
}

proof fn lemma_trim_end_skip(s: Seq<char>, k: int)
    requires
        0 <= k <= s.len(),
        forall|j: int| k <= j < s.len() ==> is_white_space(#[trigger] s[j]),
    ensures
        trim_end(s) == trim_end(s.subrange(0, k)),
    decreases s.len() - k,
{
    if k < s.len() {
        assert(is_white_space(s.last()));
        let t = s.drop_last();
        assert forall|j: int| k <= j < t.len() implies is_white_space(#[trigger] t[j]) by {
            assert(t[j] == s[j]);
        }
        lemma_trim_end_skip(t, k);
        assert(t.subrange(0, k) =~= s.subrange(0, k));
    } else {
        assert(s.subrange(0, k) =~= s);
    }
}

/// `str::trim`: removes leading and trailing whitespace.
pub fn trim_str(s: &str) -> (r: &str)
    ensures
        r@ == trim(s@),
{
    let n = s.unicode_len();
    let mut i: usize = 0;
    while i < n && is_white_space_char(s.get_char(i))
        invariant
            n == s@.len(),
            0 <= i <= n,
            forall|j: int| 0 <= j < i ==> is_white_space(#[trigger] s@[j]),
        decreases n - i,
    {
        i = i + 1;
    }
    let mut k: usize = n;
    while k > i && is_white_space_char(s.get_char(k - 1))
        invariant
            n == s@.len(),
            0 <= i <= k <= n,
            forall|j: int| k <= j < n ==> is_white_space(#[trigger] s@[j]),
        decreases k,
    {
        k = k - 1;
    }
    proof {
        lemma_trim_start_skip(s@, i as int);
        let rest = s@.subrange(i as int, n as int);
        if i < n {
            assert(rest[0] == s@[i as int]);
            assert(trim_start(rest) == rest);
        } else {
            assert(rest.len() == 0);
        }
        assert forall|j: int| k - i <= j < rest.len() implies is_white_space(#[trigger] rest[j]) by {
            assert(rest[j] == s@[j + i]);
        }
        lemma_trim_end_skip(rest, k - i);
        let mid = rest.subrange(0, k - i);
        if k > i {
            assert(mid.last() == s@[k - 1]);
        }
        assert(mid =~= s@.subrange(i as int, k as int));
        assert(trim_end(mid) == mid);
    }
    s.substring_char(i, k)
}

/// `str` equality.
pub fn str_equal(a: &str, b: &str) -> (r: bool)
    ensures
        r == (a@ == b@),
{
    let x = a.as_bytes();
    let y = b.as_bytes();
    proof {
        encode_utf8_valid_utf8(a@);
        encode_utf8_valid_utf8(b@);
        encode_utf8_decode_utf8(a@);
        encode_utf8_decode_utf8(b@);
    }
    if x.len() != y.len() {
        return false;
    }
    let mut i: usize = 0;
    while i < x.len()
        invariant
            x@.len() == y@.len(),
            x@ == encode_utf8(a@),
            y@ == encode_utf8(b@),
            decode_utf8(encode_utf8(a@)) == a@,
            decode_utf8(encode_utf8(b@)) == b@,
            i <= x@.len(),
            forall|j: int| 0 <= j < i ==> x@[j] == y@[j],
        decreases x@.len() - i,
    {
        if x[i] != y[i] {
            return false;
        }
        i = i + 1;
    }
    proof {
        assert(x@ =~= y@);
    }
    true
}

/// The bytes `b` begin with `prefix`.
pub open spec fn bytes_start_with(b: Seq<u8>, prefix: Seq<u8>) -> bool {
    prefix.len() <= b.len() && b.subrange(0, prefix.len() as int) == prefix
}

/// `str::starts_with` with a string pattern: a byte-wise prefix test.
pub fn starts_with_bytes(s: &str, prefix: &[u8]) -> (r: bool)
    ensures
        r == bytes_start_with(s.spec_bytes(), prefix@),
{
    let b = s.as_bytes();
    if prefix.len() > b.len() {
        return false;
    }
    let mut i: usize = 0;
    while i < prefix.len()
        invariant
            b@ == s.spec_bytes(),
            prefix@.len() <= b@.len(),
            i <= prefix@.len(),
            forall|j: int| 0 <= j < i ==> b@[j] == prefix@[j],
        decreases prefix@.len() - i,
    {
        if b[i] != prefix[i] {
            proof {
                assert(b@.subrange(0, prefix@.len() as int)[i as int] != prefix@[i as int]);
            }
            return false;
        }
        i = i + 1;
    }
    proof {
        assert(b@.subrange(0, prefix@.len() as int) =~= prefix@);
    }
    true
}

} // verus!
