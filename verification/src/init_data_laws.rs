//! Properties of Telegram `initData` verification: the data-check pairs are
//! ordered and complete, signed data is accepted, forged hashes are refused.

use vstd::prelude::*;
use vstd::multiset::Multiset;
use vstd::utf8::*;

use crate::init_data::{
    auth_date_key, bytes_lt, decode_faults_from, decode_from, decoded_piece, decoded_text,
    expected_hash, find_value, find_value_from, hash_key, hmac_mismatch_message, init_data_decodable,
    init_data_pairs, init_data_verdict, insert_position, pairs_verdict, is_stale, key_bytes, expired_message,
    missing_user_message, percent_decodable, percent_decoded, piece_decodable, piece_key,
    piece_value, position_from, sorted_by_key, split_bytes, split_from, user_key, without_key,
};
use crate::numeric::{hex_lower, lemma_hex_lower_digits, parse_i64_spec};
use crate::text::{all_ascii, ascii_chars, lemma_ascii_decode, lossy_text};

verus! {

broadcast use {
    vstd::seq::group_seq_axioms,
    vstd::seq_lib::to_multiset_insert,
    vstd::seq_lib::to_multiset_build,
    vstd::seq_lib::to_multiset_contains,
    vstd::seq_lib::to_multiset_len,
};

// ---------------------------------------------------------------------------
// Ordering of the data-check pairs
// ---------------------------------------------------------------------------

proof fn lemma_bytes_lt_asymmetric(a: Seq<u8>, b: Seq<u8>)
    ensures
        bytes_lt(a, b) ==> !bytes_lt(b, a),
    decreases a.len(),
{
    if a.len() > 0 && b.len() > 0 && a[0] == b[0] {
        lemma_bytes_lt_asymmetric(a.drop_first(), b.drop_first());
    }
}

proof fn lemma_bytes_lt_transitive(a: Seq<u8>, b: Seq<u8>, c: Seq<u8>)
    requires
        bytes_lt(a, b),
        bytes_lt(b, c),
    ensures
        bytes_lt(a, c),
    decreases a.len(),
{
    if a.len() > 0 && a[0] == b[0] && b[0] == c[0] {
        lemma_bytes_lt_transitive(a.drop_first(), b.drop_first(), c.drop_first());
    }
}

/// No pair of the sequence is ordered before an earlier one.
pub open spec fn ordered_by_key(s: Seq<(Seq<char>, Seq<char>)>) -> bool {
    forall|i: int, j: int|
        0 <= i < j < s.len() ==> !bytes_lt(key_bytes(#[trigger] s[j]), key_bytes(#[trigger] s[i]))
}

proof fn lemma_insert_position_facts(t: Seq<(Seq<char>, Seq<char>)>, x: (Seq<char>, Seq<char>), j: int)
    requires
        0 <= j <= t.len(),
        forall|k: int| 0 <= k < j ==> !bytes_lt(key_bytes(x), key_bytes(#[trigger] t[k])),
    ensures
        j <= insert_position(t, x, j) <= t.len(),
        forall|k: int|
            0 <= k < insert_position(t, x, j) ==> !bytes_lt(key_bytes(x), key_bytes(#[trigger] t[k])),
        insert_position(t, x, j) < t.len() ==> bytes_lt(
            key_bytes(x),
            key_bytes(t[insert_position(t, x, j)]),
        ),
    decreases t.len() - j,
{
    if j < t.len() && !bytes_lt(key_bytes(x), key_bytes(t[j])) {
        lemma_insert_position_facts(t, x, j + 1);
    }
}

/// Sorting the data-check pairs keeps every pair exactly once and orders
/// them by key.
pub proof fn law_sorted_pairs_are_ordered_permutation(s: Seq<(Seq<char>, Seq<char>)>)
    ensures
        sorted_by_key(s).len() == s.len(),
        sorted_by_key(s).to_multiset() == s.to_multiset(),
        ordered_by_key(sorted_by_key(s)),
    decreases s.len(),
{
    if s.len() > 0 {
        let rest = s.drop_last();
        let x = s.last();
        law_sorted_pairs_are_ordered_permutation(rest);
        let t = sorted_by_key(rest);
        lemma_insert_position_facts(t, x, 0);
        let p = insert_position(t, x, 0);
        let r = t.insert(p, x);
        assert(s =~= rest.push(x));
        assert(r.to_multiset() == t.to_multiset().insert(x));
        assert forall|i: int, j: int| 0 <= i < j < r.len() implies !bytes_lt(
            key_bytes(#[trigger] r[j]),
            key_bytes(#[trigger] r[i]),
        ) by {
            if j < p {
                assert(r[i] == t[i] && r[j] == t[j]);
            } else if j == p {
                assert(r[i] == t[i] && r[j] == x);
            } else if i < p {
                assert(r[i] == t[i] && r[j] == t[j - 1]);
            } else if i == p {
                assert(r[i] == x && r[j] == t[j - 1]);
                let kx = key_bytes(x);
                let kj = key_bytes(t[j - 1]);
                let kp = key_bytes(t[p]);
                if bytes_lt(kj, kx) {
                    lemma_bytes_lt_transitive(kj, kx, kp);
                    if p == j - 1 {
                        lemma_bytes_lt_asymmetric(kj, kj);
                    } else {
                        assert(!bytes_lt(key_bytes(t[j - 1]), key_bytes(t[p])));
                    }
                }
            } else {
                assert(r[i] == t[i - 1] && r[j] == t[j - 1]);
            }
        }
    }
}

// ---------------------------------------------------------------------------
// Appending a `hash` field
// ---------------------------------------------------------------------------

/// Bytes that pass through percent decoding and splitting untouched.
pub open spec fn plain_field_bytes(v: Seq<u8>) -> bool {
    &&& all_ascii(v)
    &&& forall|j: int| 0 <= j < v.len() ==> #[trigger] v[j] != 37 && v[j] != 43 && v[j] != 38
}

/// `data` with a `&hash=value` field appended.
pub open spec fn with_hash_field(data: Seq<u8>, value: Seq<u8>) -> Seq<u8> {
    data + seq![38u8] + hash_key() + seq![61u8] + value
}

proof fn lemma_decode_plain(b: Seq<u8>, i: int)
    requires
        0 <= i <= b.len(),
        forall|j: int| i <= j < b.len() ==> #[trigger] b[j] != 37 && b[j] != 43,
    ensures
        decode_from(b, i) == b.subrange(i, b.len() as int),
        !decode_faults_from(b, i),
    decreases b.len() - i,
{
    if i < b.len() {
        lemma_decode_plain(b, i + 1);
        assert(decode_from(b, i) =~= b.subrange(i, b.len() as int));
    } else {
        assert(b.subrange(i, b.len() as int) =~= Seq::<u8>::empty());
    }
}

proof fn lemma_plain_text(b: Seq<u8>)
    requires
        all_ascii(b),
        forall|j: int| 0 <= j < b.len() ==> #[trigger] b[j] != 37 && b[j] != 43,
    ensures
        percent_decodable(b),
        decoded_text(b) == ascii_chars(b),
        encode_utf8(ascii_chars(b)) == b,
{
    lemma_decode_plain(b, 0);
    assert(b.subrange(0, b.len() as int) =~= b);
    assert(percent_decoded(b) == b);
    lemma_ascii_decode(b);
}

proof fn lemma_split_without_sep(w: Seq<u8>, sep: u8, start: int, i: int)
    requires
        0 <= start <= i <= w.len(),
        forall|j: int| i <= j < w.len() ==> #[trigger] w[j] != sep,
    ensures
        split_from(w, sep, start, i) == seq![w.subrange(start, w.len() as int)],
    decreases w.len() - i,
{
    if i < w.len() {
        lemma_split_without_sep(w, sep, start, i + 1);
    }
}

proof fn lemma_split_append(a: Seq<u8>, c: Seq<u8>, sep: u8, start: int, i: int)
    requires
        0 <= start <= i <= a.len(),
        forall|j: int| 0 <= j < c.len() ==> #[trigger] c[j] != sep,
    ensures
        split_from(a + seq![sep] + c, sep, start, i) == split_from(a, sep, start, i) + seq![c],
    decreases a.len() - i,
{
    let w = a + seq![sep] + c;
    if i < a.len() {
        assert(w[i] == a[i]);
        if a[i] == sep {
            lemma_split_append(a, c, sep, i + 1, i + 1);
            assert(w.subrange(start, i) =~= a.subrange(start, i));
        } else {
            lemma_split_append(a, c, sep, start, i + 1);
        }
    } else {
        assert(w[i] == sep);
        assert forall|j: int| i + 1 <= j < w.len() implies #[trigger] w[j] != sep by {
            assert(w[j] == c[j - i - 1]);
        }
        lemma_split_without_sep(w, sep, i + 1, i + 1);
        assert(w.subrange(start, i) =~= a.subrange(start, a.len() as int));
        assert(w.subrange(i + 1, w.len() as int) =~= c);
    }
}

proof fn lemma_hash_piece(value: Seq<u8>)
    requires
        plain_field_bytes(value),
    ensures
        piece_decodable(hash_key() + seq![61u8] + value),
        decoded_piece(hash_key() + seq![61u8] + value) == (ascii_chars(hash_key()), ascii_chars(value)),
        key_bytes((ascii_chars(hash_key()), ascii_chars(value))) == hash_key(),
        encode_utf8(ascii_chars(value)) == value,
{
    let c = hash_key() + seq![61u8] + value;
    assert(c[0] == 104 && c[1] == 97 && c[2] == 115 && c[3] == 104 && c[4] == 61);
    assert(position_from(c, 61, 4) == 4);
    assert(position_from(c, 61, 3) == 4);
    assert(position_from(c, 61, 2) == 4);
    assert(position_from(c, 61, 1) == 4);
    assert(position_from(c, 61, 0) == 4);
    assert(piece_key(c) =~= hash_key());
    assert(piece_value(c) =~= value);
    let h = hash_key();
    assert(all_ascii(h));
    assert forall|j: int| 0 <= j < h.len() implies #[trigger] h[j] != 37 && h[j] != 43 by {}
    lemma_plain_text(h);
    assert forall|j: int| 0 <= j < value.len() implies #[trigger] value[j] != 37 && value[j]
        != 43 by {
        assert(value[j] != 37 && value[j] != 43 && value[j] != 38);
    }
    lemma_plain_text(value);
}

/// Appending a `&hash=value` field with plain ASCII `value` appends one
/// decoded pair, and keeps the data decodable.
pub proof fn law_hash_field_appends_one_pair(data: Seq<u8>, value: Seq<u8>)
    requires
        plain_field_bytes(value),
    ensures
        init_data_pairs(with_hash_field(data, value)) == init_data_pairs(data).push(
            (ascii_chars(hash_key()), ascii_chars(value)),
        ),
        init_data_decodable(data) ==> init_data_decodable(with_hash_field(data, value)),
{
    let c = hash_key() + seq![61u8] + value;
    assert(with_hash_field(data, value) =~= data + seq![38u8] + c);
    assert forall|j: int| 0 <= j < c.len() implies #[trigger] c[j] != 38 by {
        if j >= 5 {
            assert(c[j] == value[j - 5]);
        }
    }
    lemma_split_append(data, c, 38, 0, 0);
    lemma_hash_piece(value);
    let pieces = split_bytes(data, 38);
    let all = split_bytes(with_hash_field(data, value), 38);
    assert(all == pieces + seq![c]);
    assert(init_data_pairs(with_hash_field(data, value)) =~= init_data_pairs(data).push(
        (ascii_chars(hash_key()), ascii_chars(value)),
    ));
    if init_data_decodable(data) {
        assert forall|j: int| 0 <= j < all.len() implies piece_decodable(#[trigger] all[j]) by {
            if j < pieces.len() {
                assert(all[j] == pieces[j]);
            } else {
                assert(all[j] == c);
            }
        }
    }
}

proof fn lemma_find_value_push(
    s: Seq<(Seq<char>, Seq<char>)>,
    p: (Seq<char>, Seq<char>),
    k: Seq<u8>,
    i: int,
)
    requires
        0 <= i <= s.len(),
    ensures
        find_value_from(s.push(p), k, i) == (match find_value_from(s, k, i) {
            Some(v) => Some(v),
            None => if key_bytes(p) == k {
                Some(p.1)
            } else {
                None
            },
        }),
    decreases s.len() - i,
{
    if i < s.len() {
        assert(s.push(p)[i] == s[i]);
        lemma_find_value_push(s, p, k, i + 1);
    } else {
        assert(s.push(p)[i] == p);
        assert(find_value_from(s.push(p), k, i + 1) is None);
        assert(find_value_from(s, k, i) is None);
    }
}

/// The verdict on `data` with a `&hash=value` field appended, when `data`
/// has no `hash` field of its own.
proof fn lemma_verdict_with_hash_field(data: Seq<u8>, bot_token: Seq<u8>, now: i64, value: Seq<u8>)
    requires
        plain_field_bytes(value),
        find_value(init_data_pairs(data), hash_key()) is None,
    ensures
        ({
            let pairs = init_data_pairs(data);
            init_data_verdict(with_hash_field(data, value), bot_token, now) == if value
                != expected_hash(pairs, bot_token) {
                Err(hmac_mismatch_message())
            } else if is_stale(
                find_value(sorted_by_key(without_key(pairs, hash_key())), auth_date_key()),
                now,
            ) {
                Err(expired_message())
            } else {
                match find_value(pairs, user_key()) {
                    None => Err(missing_user_message()),
                    Some(user) => Ok(user),
                }
            }
        }),
{
    let pairs = init_data_pairs(data);
    let hp = (ascii_chars(hash_key()), ascii_chars(value));
    law_hash_field_appends_one_pair(data, value);
    lemma_hash_piece(value);
    let signed_pairs = pairs.push(hp);
    lemma_find_value_push(pairs, hp, hash_key(), 0);
    lemma_find_value_push(pairs, hp, user_key(), 0);
    assert(hash_key()[0] != user_key()[0]);
    assert(signed_pairs.drop_last() =~= pairs);
    assert(without_key(signed_pairs, hash_key()) == without_key(pairs, hash_key()));
    assert(expected_hash(signed_pairs, bot_token) == expected_hash(pairs, bot_token));
}

/// Signing and verifying: data without a `hash` field, with the `hash` field
/// that the bot token yields for it appended, passes the HMAC check; it is
/// then refused only when stale or without a `user` field, and otherwise
/// yields its `user` JSON.
pub proof fn law_signed_init_data_is_accepted(data: Seq<u8>, bot_token: Seq<u8>, now: i64)
    requires
        find_value(init_data_pairs(data), hash_key()) is None,
    ensures
        ({
            let pairs = init_data_pairs(data);
            let signed = with_hash_field(data, expected_hash(pairs, bot_token));
            &&& init_data_decodable(data) ==> init_data_decodable(signed)
            &&& init_data_verdict(signed, bot_token, now) == if is_stale(
                find_value(sorted_by_key(without_key(pairs, hash_key())), auth_date_key()),
                now,
            ) {
                Err(expired_message())
            } else {
                match find_value(pairs, user_key()) {
                    None => Err(missing_user_message()),
                    Some(user) => Ok(user),
                }
            }
        }),
{
    let pairs = init_data_pairs(data);
    let h = expected_hash(pairs, bot_token);
    lemma_hex_lower_digits(
        crate::crypto::spec_hmac_sha256(
            crate::crypto::spec_hmac_sha256(crate::init_data::web_app_data(), bot_token),
            crate::init_data::data_check_string(pairs),
        ),
    );
    assert forall|j: int| 0 <= j < h.len() implies #[trigger] h[j] != 37 && h[j] != 43 && h[j]
        != 38 && h[j] < 128 by {}
    lemma_verdict_with_hash_field(data, bot_token, now, h);
    law_hash_field_appends_one_pair(data, h);
}

/// A forged `hash`: any other plain value than the one the bot token yields
/// is refused with the HMAC error, whatever the rest of the data holds.
pub proof fn law_forged_hash_is_rejected(data: Seq<u8>, bot_token: Seq<u8>, now: i64, forged: Seq<u8>)
    requires
        find_value(init_data_pairs(data), hash_key()) is None,
        plain_field_bytes(forged),
        forged != expected_hash(init_data_pairs(data), bot_token),
    ensures
        init_data_verdict(with_hash_field(data, forged), bot_token, now) == Err::<
            Seq<char>,
            Seq<char>,
        >(hmac_mismatch_message()),
{
    lemma_verdict_with_hash_field(data, bot_token, now, forged);
}


// ---------------------------------------------------------------------------
// The order of the pairs
// ---------------------------------------------------------------------------

/// No two pairs have the same key.
pub open spec fn distinct_pair_keys(s: Seq<(Seq<char>, Seq<char>)>) -> bool {
    forall|i: int, j: int|
        0 <= i < j < s.len() ==> key_bytes(#[trigger] s[i]) != key_bytes(#[trigger] s[j])
}

/// A multiset of pairs holds each pair at most once and no two pairs with
/// the same key.
spec fn key_unique(m: Multiset<(Seq<char>, Seq<char>)>) -> bool {
    &&& forall|x: (Seq<char>, Seq<char>)| #[trigger] m.count(x) <= 1
    &&& forall|x: (Seq<char>, Seq<char>), y: (Seq<char>, Seq<char>)|
        #[trigger] m.count(x) > 0 && #[trigger] m.count(y) > 0 && key_bytes(x) == key_bytes(y) ==> x == y
}

proof fn lemma_distinct_keys_multiset(s: Seq<(Seq<char>, Seq<char>)>)
    ensures
        distinct_pair_keys(s) <==> key_unique(s.to_multiset()),
{
    let m = s.to_multiset();
    if distinct_pair_keys(s) {
        assert(s.no_duplicates());
        s.lemma_multiset_has_no_duplicates();
        assert forall|x: (Seq<char>, Seq<char>)| #[trigger] m.count(x) <= 1 by {
            if m.count(x) > 0 {
                assert(m.contains(x));
            }
        }
        assert forall|x: (Seq<char>, Seq<char>), y: (Seq<char>, Seq<char>)|
            #[trigger] m.count(x) > 0 && #[trigger] m.count(y) > 0 && key_bytes(x) == key_bytes(y) implies x
            == y by {
            assert(s.contains(x));
            assert(s.contains(y));
            let i = choose|i: int| 0 <= i < s.len() && s[i] == x;
            let j = choose|j: int| 0 <= j < s.len() && s[j] == y;
            if i < j {
                assert(key_bytes(s[i]) != key_bytes(s[j]));
            } else if j < i {
                assert(key_bytes(s[j]) != key_bytes(s[i]));
            }
        }
    }
    if key_unique(m) {
        assert forall|x: (Seq<char>, Seq<char>)| m.contains(x) implies m.count(x) == 1 by {}
        s.lemma_multiset_has_no_duplicates_conv();
        assert forall|i: int, j: int| 0 <= i < j < s.len() implies key_bytes(#[trigger] s[i]) != key_bytes(
            #[trigger] s[j],
        ) by {
            assert(s.contains(s[i]));
            assert(s.contains(s[j]));
            assert(m.count(s[i]) > 0 && m.count(s[j]) > 0);
        }
    }
}

proof fn lemma_without_key_count(s: Seq<(Seq<char>, Seq<char>)>, k: Seq<u8>, x: (Seq<char>, Seq<char>))
    ensures
        without_key(s, k).to_multiset().count(x) == if key_bytes(x) == k {
            0
        } else {
            s.to_multiset().count(x)
        },
    decreases s.len(),
{
    if s.len() == 0 {
        assert(without_key(s, k).to_multiset() =~= Multiset::empty());
    } else {
        lemma_without_key_count(s.drop_last(), k, x);
        assert(s =~= s.drop_last().push(s.last()));
    }
}

proof fn lemma_without_key_multiset(p: Seq<(Seq<char>, Seq<char>)>, q: Seq<(Seq<char>, Seq<char>)>, k: Seq<u8>)
    requires
        p.to_multiset() == q.to_multiset(),
    ensures
        without_key(p, k).to_multiset() == without_key(q, k).to_multiset(),
        key_unique(p.to_multiset()) ==> key_unique(without_key(p, k).to_multiset()),
{
    assert forall|x: (Seq<char>, Seq<char>)| #[trigger] without_key(p, k).to_multiset().count(x)
        == without_key(q, k).to_multiset().count(x) by {
        lemma_without_key_count(p, k, x);
        lemma_without_key_count(q, k, x);
    }
    assert(without_key(p, k).to_multiset() =~= without_key(q, k).to_multiset());
    if key_unique(p.to_multiset()) {
        let w = without_key(p, k).to_multiset();
        assert forall|x: (Seq<char>, Seq<char>)| #[trigger] w.count(x) <= 1 by {
            lemma_without_key_count(p, k, x);
            assert(p.to_multiset().count(x) <= 1);
        }
        assert forall|x: (Seq<char>, Seq<char>), y: (Seq<char>, Seq<char>)|
            #[trigger] w.count(x) > 0 && #[trigger] w.count(y) > 0 && key_bytes(x) == key_bytes(y) implies x
            == y by {
            lemma_without_key_count(p, k, x);
            lemma_without_key_count(p, k, y);
            assert(p.to_multiset().count(x) > 0 && p.to_multiset().count(y) > 0);
        }
    }
}

proof fn lemma_bytes_lt_total(a: Seq<u8>, b: Seq<u8>)
    requires
        a != b,
    ensures
        bytes_lt(a, b) || bytes_lt(b, a),
    decreases a.len(),
{
    if a.len() > 0 && b.len() > 0 && a[0] == b[0] {
        assert(a.drop_first() != b.drop_first()) by {
            if a.drop_first() == b.drop_first() {
                assert(a =~= seq![a[0]] + a.drop_first());
                assert(b =~= seq![b[0]] + b.drop_first());
            }
        }
        lemma_bytes_lt_total(a.drop_first(), b.drop_first());
    } else if a.len() == 0 && b.len() == 0 {
        assert(a =~= b);
    }
}

/// Two sequences ordered by key, with the same pairs and no repeated key,
/// are the same sequence.
proof fn lemma_ordered_unique(s: Seq<(Seq<char>, Seq<char>)>, t: Seq<(Seq<char>, Seq<char>)>)
    requires
        ordered_by_key(s),
        ordered_by_key(t),
        s.to_multiset() == t.to_multiset(),
        key_unique(s.to_multiset()),
    ensures
        s == t,
    decreases s.len(),
{
    lemma_distinct_keys_multiset(s);
    lemma_distinct_keys_multiset(t);
    assert(s.len() == s.to_multiset().len());
    assert(t.len() == t.to_multiset().len());
    if s.len() > 0 {
        let n = s.len() - 1;
        let x = s.last();
        let y = t.last();
        assert(s.to_multiset().count(x) > 0) by {
            assert(s.contains(x));
        }
        assert(t.to_multiset().count(x) > 0);
        assert(t.contains(x));
        assert(s.contains(y)) by {
            assert(t.contains(y));
            assert(t.to_multiset().count(y) > 0);
            assert(s.to_multiset().count(y) > 0);
        }
        let k = choose|k: int| 0 <= k < t.len() && t[k] == x;
        let m = choose|m: int| 0 <= m < s.len() && s[m] == y;
        if x != y {
            assert(k < n);
            assert(m < n);
            assert(key_bytes(t[k]) != key_bytes(t[n]));
            assert(key_bytes(s[m]) != key_bytes(s[n]));
            assert(!bytes_lt(key_bytes(t[n]), key_bytes(t[k])));
            assert(!bytes_lt(key_bytes(s[n]), key_bytes(s[m])));
            lemma_bytes_lt_total(key_bytes(x), key_bytes(y));
            assert(false);
        }
        let s2 = s.drop_last();
        let t2 = t.drop_last();
        assert(s =~= s2.push(x));
        assert(t =~= t2.push(x));
        assert(s2.to_multiset() =~= t2.to_multiset()) by {
            assert(s2.to_multiset().insert(x) == t2.to_multiset().insert(x));
            assert forall|z: (Seq<char>, Seq<char>)| #[trigger] s2.to_multiset().count(z)
                == t2.to_multiset().count(z) by {
                assert(s2.to_multiset().insert(x).count(z) == t2.to_multiset().insert(x).count(z));
            }
        }
        assert(ordered_by_key(s2));
        assert(ordered_by_key(t2));
        assert(key_unique(s2.to_multiset())) by {
            lemma_distinct_keys_multiset(s2);
        }
        lemma_ordered_unique(s2, t2);
    } else {
        assert(t.len() == 0);
        assert(s =~= t);
    }
}

proof fn lemma_find_value_unique(p: Seq<(Seq<char>, Seq<char>)>, q: Seq<(Seq<char>, Seq<char>)>, k: Seq<u8>)
    requires
        p.to_multiset() == q.to_multiset(),
        key_unique(p.to_multiset()),
    ensures
        find_value(p, k) == find_value(q, k),
{
    lemma_find_value_spec(p, k, 0);
    lemma_find_value_spec(q, k, 0);
    if find_value(p, k) is Some {
        let i = choose|i: int| 0 <= i < p.len() && key_bytes(p[i]) == k && find_value(p, k) == Some(p[i].1);
        assert(p.contains(p[i]));
        assert(p.to_multiset().count(p[i]) > 0);
        assert(q.to_multiset().count(p[i]) > 0);
        assert(q.contains(p[i]));
        let j = choose|j: int| 0 <= j < q.len() && q[j] == p[i];
        assert(find_value(q, k) is Some);
        let j2 = choose|j: int| 0 <= j < q.len() && key_bytes(q[j]) == k && find_value(q, k) == Some(q[j].1);
        assert(q.contains(q[j2]));
        assert(p.to_multiset().count(q[j2]) > 0);
        assert(p.to_multiset().count(p[i]) > 0);
    } else if find_value(q, k) is Some {
        let j = choose|j: int| 0 <= j < q.len() && key_bytes(q[j]) == k && find_value(q, k) == Some(q[j].1);
        assert(q.contains(q[j]));
        assert(q.to_multiset().count(q[j]) > 0);
        assert(p.to_multiset().count(q[j]) > 0);
        assert(p.contains(q[j]));
    }
}

proof fn lemma_find_value_spec(s: Seq<(Seq<char>, Seq<char>)>, k: Seq<u8>, i: int)
    requires
        0 <= i <= s.len(),
    ensures
        find_value_from(s, k, i) is Some ==> exists|j: int|
            i <= j < s.len() && key_bytes(s[j]) == k && find_value_from(s, k, i) == Some(#[trigger] s[j].1),
        find_value_from(s, k, i) is None ==> forall|j: int| i <= j < s.len() ==> key_bytes(#[trigger] s[j]) != k,
    decreases s.len() - i,
{
    if i < s.len() {
        lemma_find_value_spec(s, k, i + 1);
    }
}

/// The order of the pairs of init data does not matter when no key repeats:
/// any reordering of the decoded pairs gets the same verdict.
pub proof fn law_verdict_ignores_pair_order(
    p: Seq<(Seq<char>, Seq<char>)>,
    q: Seq<(Seq<char>, Seq<char>)>,
    bot_token: Seq<u8>,
    now: i64,
)
    requires
        distinct_pair_keys(p),
        p.to_multiset() == q.to_multiset(),
    ensures
        distinct_pair_keys(q),
        pairs_verdict(p, bot_token, now) == pairs_verdict(q, bot_token, now),
{
    lemma_distinct_keys_multiset(p);
    lemma_distinct_keys_multiset(q);
    lemma_find_value_unique(p, q, hash_key());
    lemma_find_value_unique(p, q, user_key());
    lemma_without_key_multiset(p, q, hash_key());
    let wp = without_key(p, hash_key());
    let wq = without_key(q, hash_key());
    law_sorted_pairs_are_ordered_permutation(wp);
    law_sorted_pairs_are_ordered_permutation(wq);
    lemma_ordered_unique(sorted_by_key(wp), sorted_by_key(wq));
}


proof fn lemma_pieces_map_multiset(s: Seq<Seq<u8>>, t: Seq<Seq<u8>>)
    requires
        s.to_multiset() == t.to_multiset(),
    ensures
        s.map_values(|p: Seq<u8>| decoded_piece(p)).to_multiset() == t.map_values(
            |p: Seq<u8>| decoded_piece(p),
        ).to_multiset(),
    decreases s.len(),
{
    broadcast use vstd::multiset::group_multiset_axioms;

    let f = |p: Seq<u8>| decoded_piece(p);
    s.to_multiset_ensures();
    t.to_multiset_ensures();
    if s.len() == 0 {
        assert(t.len() == 0);
        assert(s.map_values(f) =~= Seq::<(Seq<char>, Seq<char>)>::empty());
        assert(t.map_values(f) =~= Seq::<(Seq<char>, Seq<char>)>::empty());
    } else {
        let x = s.last();
        let s2 = s.drop_last();
        assert(s =~= s2.push(x));
        assert(s.contains(x));
        assert(t.to_multiset().count(x) > 0);
        assert(t.contains(x));
        let k = choose|k: int| 0 <= k < t.len() && t[k] == x;
        let t2 = t.remove(k);
        assert(t2.to_multiset() == t.to_multiset().remove(x));
        s2.to_multiset_ensures();
        assert(s2.to_multiset().insert(x) == s.to_multiset());
        assert(s2.to_multiset() =~= t2.to_multiset());
        lemma_pieces_map_multiset(s2, t2);
        let ms = s.map_values(f);
        let mt = t.map_values(f);
        assert(ms =~= s2.map_values(f).push(f(x)));
        s2.map_values(f).to_multiset_ensures();
        assert(ms.to_multiset() == s2.map_values(f).to_multiset().insert(f(x)));
        mt.to_multiset_ensures();
        assert(mt.remove(k) =~= t2.map_values(f));
        assert(mt[k] == f(x));
        assert(mt.remove(k).to_multiset() == mt.to_multiset().remove(f(x)));
        assert(mt.contains(mt[k]));
        assert(mt.to_multiset().count(f(x)) > 0);
        assert(mt.to_multiset() =~= mt.to_multiset().remove(f(x)).insert(f(x)));
    }
}

/// The order of the `&`-separated segments of init data does not matter
/// when no decoded key repeats: any reordering of the segments decodes in
/// the same cases and gets the same verdict.
pub proof fn law_verdict_ignores_segment_order(
    init: Seq<u8>,
    reordered: Seq<u8>,
    bot_token: Seq<u8>,
    now: i64,
)
    requires
        split_bytes(reordered, 38).to_multiset() == split_bytes(init, 38).to_multiset(),
        distinct_pair_keys(init_data_pairs(init)),
    ensures
        init_data_decodable(reordered) == init_data_decodable(init),
        init_data_verdict(reordered, bot_token, now) == init_data_verdict(init, bot_token, now),
{
    let a = split_bytes(init, 38);
    let b = split_bytes(reordered, 38);
    a.to_multiset_ensures();
    b.to_multiset_ensures();
    lemma_pieces_map_multiset(a, b);
    assert(init_data_pairs(init) == a.map_values(|p: Seq<u8>| decoded_piece(p)));
    assert(init_data_pairs(reordered) == b.map_values(|p: Seq<u8>| decoded_piece(p)));
    law_verdict_ignores_pair_order(init_data_pairs(init), init_data_pairs(reordered), bot_token, now);
    assert(init_data_decodable(reordered) == init_data_decodable(init)) by {
        if init_data_decodable(init) {
            assert forall|j: int| 0 <= j < b.len() implies piece_decodable(#[trigger] b[j]) by {
                assert(b.contains(b[j]));
                assert(b.to_multiset().count(b[j]) > 0);
                assert(a.contains(b[j]));
            }
        }
        if init_data_decodable(reordered) {
            assert forall|j: int| 0 <= j < a.len() implies piece_decodable(#[trigger] a[j]) by {
                assert(a.contains(a[j]));
                assert(a.to_multiset().count(a[j]) > 0);
                assert(b.contains(a[j]));
            }
        }
    }
}


// ---------------------------------------------------------------------------
// Freshness
// ---------------------------------------------------------------------------

proof fn lemma_find_value_shift(a: Seq<(Seq<char>, Seq<char>)>, b: Seq<(Seq<char>, Seq<char>)>, k: Seq<u8>, j: int)
    requires
        0 <= j <= b.len(),
    ensures
        find_value_from(a + b, k, a.len() + j) == find_value_from(b, k, j),
    decreases b.len() - j,
{
    if j < b.len() {
        assert((a + b)[a.len() + j] == b[j]);
        lemma_find_value_shift(a, b, k, j + 1);
    }
}

proof fn lemma_find_value_concat(a: Seq<(Seq<char>, Seq<char>)>, b: Seq<(Seq<char>, Seq<char>)>, k: Seq<u8>, i: int)
    requires
        0 <= i <= a.len(),
    ensures
        find_value_from(a + b, k, i) == (match find_value_from(a, k, i) {
            Some(v) => Some(v),
            None => find_value(b, k),
        }),
    decreases a.len() - i,
{
    if i < a.len() {
        assert((a + b)[i] == a[i]);
        lemma_find_value_concat(a, b, k, i + 1);
    } else {
        lemma_find_value_shift(a, b, k, 0);
    }
}

proof fn lemma_find_value_without_key(s: Seq<(Seq<char>, Seq<char>)>, h: Seq<u8>, k: Seq<u8>)
    requires
        k != h,
    ensures
        find_value(without_key(s, h), k) == find_value(s, k),
    decreases s.len(),
{
    if s.len() > 0 {
        let s2 = s.drop_last();
        let x = s.last();
        assert(s =~= s2.push(x));
        lemma_find_value_without_key(s2, h, k);
        lemma_find_value_push(s2, x, k, 0);
        if key_bytes(x) != h {
            lemma_find_value_push(without_key(s2, h), x, k, 0);
        }
    }
}

proof fn lemma_bytes_lt_irreflexive(a: Seq<u8>)
    ensures
        !bytes_lt(a, a),
{
    lemma_bytes_lt_asymmetric(a, a);
}

proof fn lemma_find_value_sorted(s: Seq<(Seq<char>, Seq<char>)>, k: Seq<u8>)
    ensures
        find_value(sorted_by_key(s), k) == find_value(s, k),
    decreases s.len(),
{
    if s.len() > 0 {
        let s2 = s.drop_last();
        let x = s.last();
        assert(s =~= s2.push(x));
        lemma_find_value_sorted(s2, k);
        lemma_find_value_push(s2, x, k, 0);
        law_sorted_pairs_are_ordered_permutation(s2);
        let t = sorted_by_key(s2);
        lemma_insert_position_facts(t, x, 0);
        let pos = insert_position(t, x, 0);
        let a = t.subrange(0, pos);
        let b = t.subrange(pos, t.len() as int);
        assert(t =~= a + b);
        assert(t.insert(pos, x) =~= a + (seq![x] + b));
        lemma_find_value_concat(a, b, k, 0);
        lemma_find_value_concat(a, seq![x] + b, k, 0);
        lemma_find_value_concat(seq![x], b, k, 0);
        assert(sorted_by_key(s) == t.insert(pos, x));
        assert(seq![x][0] == x);
        assert(find_value_from(seq![x], k, 1) is None);
        assert(find_value(seq![x], k) == (if key_bytes(x) == k {
            Some(x.1)
        } else {
            None::<Seq<char>>
        }));
        if key_bytes(x) == k {
            assert forall|m: int| 0 <= m < b.len() implies key_bytes(#[trigger] b[m]) != k by {
                assert(b[m] == t[pos + m]);
                let kp = key_bytes(t[pos]);
                let km = key_bytes(t[pos + m]);
                assert(bytes_lt(k, kp));
                if m > 0 {
                    assert(!bytes_lt(km, kp));
                    if km != kp {
                        lemma_bytes_lt_total(km, kp);
                        lemma_bytes_lt_transitive(k, kp, km);
                    }
                }
                if km == k {
                    lemma_bytes_lt_irreflexive(k);
                }
            }
            lemma_find_value_spec(b, k, 0);
            assert(find_value(b, k) is None);
        }
        assert(find_value(t, k) == find_value(s2, k));
    }
}

/// Init data is accepted only while it is fresh: whenever verification at
/// time `now` accepts it, its first `auth_date`, if it reads as an integer,
/// lies at most a day (86400 seconds) before `now`.
pub proof fn law_accepted_init_data_is_fresh(init: Seq<u8>, bot_token: Seq<u8>, now: i64)
    ensures
        init_data_verdict(init, bot_token, now) is Ok ==> (find_value(init_data_pairs(init), auth_date_key())
            matches Some(a) ==> (parse_i64_spec(encode_utf8(a)) matches Some(d) ==> now - d <= 86400)),
{
    let p = init_data_pairs(init);
    assert(auth_date_key() != hash_key()) by {
        assert(auth_date_key().len() != hash_key().len());
    }
    lemma_find_value_without_key(p, hash_key(), auth_date_key());
    lemma_find_value_sorted(without_key(p, hash_key()), auth_date_key());
}

} // verus!
