//! Game catalog query rules: search patterns and result limits.

use vstd::prelude::*;
use vstd::string::*;

use crate::document::{
    distinct_keys, field_value, fields_view, key_index, last_value, lemma_with_fields, set_fields, with_fields,
};
use crate::text::{trim, trim_str};

verus! {

broadcast use vstd::seq::group_seq_axioms;

/// Response for all categories.
pub struct CategoriesResponse {
    pub categories: Vec<String>,
}

/// A character with a special meaning in a regular expression:
/// one of `\^$.|?*+()[]{}`.
pub open spec fn is_regex_special(c: char) -> bool {
    ||| c == '\\'
    ||| c == '^'
    ||| c == '$'
    ||| c == '.'
    ||| c == '|'
    ||| c == '?'
    ||| c == '*'
    ||| c == '+'
    ||| c == '('
    ||| c == ')'
    ||| c == '['
    ||| c == ']'
    ||| c == '{'
    ||| c == '}'
}

/// Every special character preceded by a backslash.
pub open spec fn regex_escaped(s: Seq<char>) -> Seq<char>
    decreases s.len(),
{
    if s.len() == 0 {
        s
    } else if is_regex_special(s.last()) {
        regex_escaped(s.drop_last()) + seq!['\\', s.last()]
    } else {
        regex_escaped(s.drop_last()).push(s.last())
    }
}

fn is_regex_special_char(c: char) -> (b: bool)
    ensures
        b == is_regex_special(c),
{
    c == '\\' || c == '^' || c == '$' || c == '.' || c == '|' || c == '?' || c == '*' || c == '+'
        || c == '(' || c == ')' || c == '[' || c == ']' || c == '{' || c == '}'
}

proof fn lemma_special_is_listed(c: char)
    ensures
        is_regex_special(c) <==> seq!['\\', '^', '$', '.', '|', '?', '*', '+', '(', ')', '[', ']', '{', '}'].contains(c),
{
    let l = seq!['\\', '^', '$', '.', '|', '?', '*', '+', '(', ')', '[', ']', '{', '}'];
    assert(l[0] == '\\' && l[1] == '^' && l[2] == '$' && l[3] == '.' && l[4] == '|' && l[5] == '?'
        && l[6] == '*' && l[7] == '+' && l[8] == '(' && l[9] == ')' && l[10] == '[' && l[11] == ']'
        && l[12] == '{' && l[13] == '}');
    if is_regex_special(c) {
        if c == '\\' { assert(l[0] == c); }
        else if c == '^' { assert(l[1] == c); }
        else if c == '$' { assert(l[2] == c); }
        else if c == '.' { assert(l[3] == c); }
        else if c == '|' { assert(l[4] == c); }
        else if c == '?' { assert(l[5] == c); }
        else if c == '*' { assert(l[6] == c); }
        else if c == '+' { assert(l[7] == c); }
        else if c == '(' { assert(l[8] == c); }
        else if c == ')' { assert(l[9] == c); }
        else if c == '[' { assert(l[10] == c); }
        else if c == ']' { assert(l[11] == c); }
        else if c == '{' { assert(l[12] == c); }
        else { assert(l[13] == c); }
    }
}

/// Escaping puts a backslash before exactly the fourteen characters
/// `\ ^ $ . | ? * + ( ) [ ] { }` and keeps every other character as it is,
/// in order: the escape of `s` followed by `c` is the escape of `s`
/// followed by `\c` for those characters and by `c` alone otherwise. In
/// particular text without those characters (every letter and digit) is its
/// own escape.
pub proof fn law_escape_marks_only_metacharacters(s: Seq<char>, c: char)
    ensures
        regex_escaped(s.push(c)) == regex_escaped(s) + (if seq!['\\', '^', '$', '.', '|', '?', '*', '+', '(', ')', '[', ']', '{', '}'].contains(c) {
            seq!['\\', c]
        } else {
            seq![c]
        }),
        (forall|i: int| 0 <= i < s.len() ==> !seq!['\\', '^', '$', '.', '|', '?', '*', '+', '(', ')', '[', ']', '{', '}'].contains(#[trigger] s[i]))
            ==> regex_escaped(s) == s,
    decreases s.len(),
{
    lemma_special_is_listed(c);
    assert(s.push(c).drop_last() =~= s);
    assert(s.push(c).last() == c);
    if s.len() > 0 {
        law_escape_marks_only_metacharacters(s.drop_last(), s.last());
        assert(s.drop_last().push(s.last()) =~= s);
        if forall|i: int| 0 <= i < s.len() ==> !seq!['\\', '^', '$', '.', '|', '?', '*', '+', '(', ')', '[', ']', '{', '}'].contains(#[trigger] s[i]) {
            assert(forall|i: int| 0 <= i < s.drop_last().len() ==> #[trigger] s.drop_last()[i] == s[i]);
            assert(!seq!['\\', '^', '$', '.', '|', '?', '*', '+', '(', ')', '[', ']', '{', '}'].contains(s[s.len() - 1]));
            lemma_special_is_listed(s.last());
            assert(regex_escaped(s.drop_last()) == s.drop_last());
            assert(regex_escaped(s) =~= s.drop_last().push(s.last()));
        }
    } else {
        assert(regex_escaped(s) == s);
    }
}

/// Escapes the characters of `s` that are special in a regular expression.
pub fn escape_regex(s: &str) -> (r: String)
    ensures
        r@ == regex_escaped(s@),
{
    let n = s.unicode_len();
    let mut out = String::new();
    let mut i: usize = 0;
    while i < n
        invariant
            n == s@.len(),
            i <= n,
            out@ == regex_escaped(s@.subrange(0, i as int)),
        decreases n - i,
    {
        let c = s.get_char(i);
        let piece = s.substring_char(i, i + 1);
        proof {
            let p = s@.subrange(0, i + 1);
            assert(p.drop_last() =~= s@.subrange(0, i as int));
            assert(p.last() == c);
            assert(piece@ =~= seq![c]);
        }
        if is_regex_special_char(c) {
            out.append("\\");
            proof {
                reveal_strlit("\\");
            }
        }
        out.append(piece);
        proof {
            let p = s@.subrange(0, i + 1);
            if is_regex_special(c) {
                assert(out@ =~= regex_escaped(p));
            } else {
                assert(out@ =~= regex_escaped(p));
            }
        }
        i = i + 1;
    }
    proof {
        assert(s@.subrange(0, n as int) =~= s@);
    }
    out
}

/// The case-insensitive search pattern of a query: `(?i)` followed by the
/// escaped trimmed query; no pattern for a missing or blank query.
pub fn search_pattern(search: Option<&str>) -> (r: Option<String>)
    ensures
        match search {
            Some(q) => if trim(q@).len() == 0 {
                r is None
            } else {
                r matches Some(p) && p@ == "(?i)"@ + regex_escaped(trim(q@))
            },
            None => r is None,
        },
{
    match search {
        Some(q) => {
            let t = trim_str(q);
            if t.unicode_len() == 0 {
                None
            } else {
                let mut pattern = String::from_str("(?i)");
                let escaped = escape_regex(t);
                pattern.append(escaped.as_str());
                Some(pattern)
            }
        },
        None => None,
    }
}

/// The most games that listing all games returns: the limit (default 100),
/// none for a negative limit.
pub fn find_all_cap(limit: Option<i64>) -> (cap: u64)
    ensures
        cap == (match limit {
            Some(l) => if l < 0 {
                0
            } else {
                l as int
            },
            None => 100,
        }),
{
    match limit {
        Some(l) => if l < 0 {
            0
        } else {
            l as u64
        },
        None => 100,
    }
}

/// Listing all games takes another game only while fewer than the cap have
/// been taken, so it returns at most `cap` games.
pub fn find_all_should_stop(collected: usize, cap: u64) -> (stop: bool)
    ensures
        stop == (collected >= cap),
{
    collected as u64 >= cap
}

/// The number of games a page skips: the offset converted to `u64` as `as`
/// converts.
pub fn page_skip(skip: i64) -> (s: u64)
    ensures
        s == skip as u64,
{
    skip as u64
}

/// The update of a partial game patch: the fields to set and what to unset.
pub struct PatchUpdate<V> {
    pub set: Vec<(String, V)>,
    pub unset: Option<V>,
}

/// `updated_at`
pub open spec fn updated_at_key() -> Seq<char> {
    "updated_at"@
}

/// The fields that a patch sets: `updated_at` at the time of the patch,
/// then each requested field in order, a field set again replacing its
/// earlier value in place.
pub open spec fn patch_fields<V>(updated_at: V, requested: Seq<(Seq<char>, V)>) -> Seq<(Seq<char>, V)> {
    with_fields(seq![(updated_at_key(), updated_at)], requested)
}

/// The update of a patch: `$set` holds `updated_at` overlaid with the
/// requested `$set` fields (none when the request's `$set` is absent or not
/// a document), and the requested `$unset`, if any, is passed on.
pub fn patch_update<V>(updated_at: V, requested_set: Option<Vec<(String, V)>>, requested_unset: Option<V>) -> (u: PatchUpdate<V>)
    ensures
        fields_view(u.set@) == patch_fields(
            updated_at,
            match requested_set {
                Some(f) => fields_view(f@),
                None => Seq::empty(),
            },
        ),
        u.unset == requested_unset,
{
    let mut set: Vec<(String, V)> = Vec::new();
    let ghost t = updated_at;
    set.push((String::from_str("updated_at"), updated_at));
    proof {
        reveal_strlit("updated_at");
        assert(fields_view(set@) =~= seq![(updated_at_key(), t)]);
    }
    match requested_set {
        Some(f) => {
            set_fields(&mut set, f);
        },
        None => {
            proof {
                assert(with_fields(fields_view(set@), Seq::<(Seq<char>, V)>::empty()) == fields_view(set@));
            }
        },
    }
    PatchUpdate { set, unset: requested_unset }
}

/// A patch names no field twice, sets every requested field to the last
/// value requested for it, and sets `updated_at` to the time of the patch
/// unless the request sets it.
pub proof fn law_patch_sets_requested_fields<V>(updated_at: V, requested: Seq<(Seq<char>, V)>)
    ensures
        distinct_keys(patch_fields(updated_at, requested)),
        forall|k: Seq<char>| #[trigger] field_value(patch_fields(updated_at, requested), k) == match last_value(requested, k) {
            Some(v) => Some(v),
            None => if k == updated_at_key() {
                Some(updated_at)
            } else {
                None
            },
        },
{
    let d = seq![(updated_at_key(), updated_at)];
    lemma_with_fields(d, requested);
    assert forall|k: Seq<char>| #[trigger] field_value(d, k) == (if k == updated_at_key() {
        Some(updated_at)
    } else {
        None
    }) by {
        assert(d.drop_last() =~= Seq::<(Seq<char>, V)>::empty());
        assert(key_index(d.drop_last(), k) == -1);
        assert(d.last() == (updated_at_key(), updated_at));
    }
}

} // verus!
