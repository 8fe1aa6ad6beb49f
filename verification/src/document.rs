//! Ordered documents: lists of named fields where setting a field that is
//! already present replaces its value in place, and a new field goes last.

use vstd::prelude::*;

use crate::text::str_equal;

verus! {

/// The names of the fields as text, with their values.
pub open spec fn fields_view<V>(d: Seq<(String, V)>) -> Seq<(Seq<char>, V)> {
    d.map_values(|p: (String, V)| (p.0@, p.1))
}

/// The index of the first field named `k`, or -1 when there is none.
pub open spec fn key_index<V>(d: Seq<(Seq<char>, V)>, k: Seq<char>) -> int
    decreases d.len(),
{
    if d.len() == 0 {
        -1
    } else {
        let i = key_index(d.drop_last(), k);
        if i >= 0 {
            i
        } else if d.last().0 == k {
            d.len() - 1
        } else {
            -1
        }
    }
}

/// The document with field `k` set to `v`.
pub open spec fn with_field<V>(d: Seq<(Seq<char>, V)>, k: Seq<char>, v: V) -> Seq<(Seq<char>, V)> {
    let i = key_index(d, k);
    if i >= 0 {
        d.update(i, (k, v))
    } else {
        d.push((k, v))
    }
}

/// The document with each of the fields set, in order.
pub open spec fn with_fields<V>(d: Seq<(Seq<char>, V)>, fields: Seq<(Seq<char>, V)>) -> Seq<
    (Seq<char>, V),
>
    decreases fields.len(),
{
    if fields.len() == 0 {
        d
    } else {
        let last = fields.last();
        with_field(with_fields(d, fields.drop_last()), last.0, last.1)
    }
}

/// No two fields share a name.
pub open spec fn distinct_keys<V>(d: Seq<(Seq<char>, V)>) -> bool {
    forall|i: int, j: int| 0 <= i < j < d.len() ==> #[trigger] d[i].0 != #[trigger] d[j].0
}

/// The first field named `k` is at `key_index`, and there is none when it
/// is -1.
pub proof fn lemma_key_index<V>(d: Seq<(Seq<char>, V)>, k: Seq<char>)
    ensures
        -1 <= key_index(d, k) < d.len(),
        key_index(d, k) >= 0 ==> d[key_index(d, k)].0 == k,
        forall|j: int| 0 <= j < d.len() && (key_index(d, k) < 0 || j < key_index(d, k)) ==> #[trigger] d[j].0
            != k,
    decreases d.len(),
{
    if d.len() > 0 {
        lemma_key_index(d.drop_last(), k);
        assert forall|j: int| 0 <= j < d.len() - 1 implies #[trigger] d[j] == d.drop_last()[j] by {}
    }
}

fn find_key<V>(d: &Vec<(String, V)>, k: &str) -> (r: Option<usize>)
    ensures
        match r {
            Some(i) => key_index(fields_view(d@), k@) == i,
            None => key_index(fields_view(d@), k@) == -1,
        },
{
    let ghost dv = fields_view(d@);
    proof {
        lemma_key_index(dv, k@);
    }
    let mut i: usize = 0;
    while i < d.len()
        invariant
            i <= d@.len(),
            dv == fields_view(d@),
            -1 <= key_index(dv, k@) < dv.len(),
            key_index(dv, k@) >= 0 ==> dv[key_index(dv, k@)].0 == k@,
            forall|j: int| 0 <= j < dv.len() && (key_index(dv, k@) < 0 || j < key_index(dv, k@))
                ==> #[trigger] dv[j].0 != k@,
            forall|j: int| 0 <= j < i ==> #[trigger] dv[j].0 != k@,
        decreases d@.len() - i,
    {
        assert(dv[i as int].0 == d@[i as int].0@);
        if str_equal(d[i].0.as_str(), k) {
            return Some(i);
        }
        i = i + 1;
    }
    None
}

/// Sets field `k` of the document to `v`.
pub fn set_field<V>(d: &mut Vec<(String, V)>, k: String, v: V)
    ensures
        fields_view(final(d)@) == with_field(fields_view(old(d)@), k@, v),
{
    let ghost before = fields_view(d@);
    proof {
        lemma_key_index(before, k@);
    }
    match find_key(d, k.as_str()) {
        Some(i) => {
            let ghost kv = k@;
            d.set(i, (k, v));
            proof {
                assert(fields_view(d@) =~= before.update(i as int, (kv, v)));
            }
        },
        None => {
            let ghost kv = k@;
            d.push((k, v));
            proof {
                assert(fields_view(d@) =~= before.push((kv, v)));
            }
        },
    }
}

/// Sets each of the fields of `fields` in the document, in order.
pub fn set_fields<V>(d: &mut Vec<(String, V)>, fields: Vec<(String, V)>)
    ensures
        fields_view(final(d)@) == with_fields(fields_view(old(d)@), fields_view(fields@)),
{
    let ghost start = fields_view(d@);
    let ghost all = fields_view(fields@);
    let n = fields.len();
    let mut rest = fields;
    let mut taken: usize = 0;
    while rest.len() > 0
        invariant
            taken + rest@.len() == all.len(),
            all.len() == n,
            fields_view(rest@) == all.subrange(taken as int, all.len() as int),
            fields_view(d@) == with_fields(start, all.subrange(0, taken as int)),
        decreases rest@.len(),
    {
        let ghost old_rest = rest@;
        let (k, v) = rest.remove(0);
        proof {
            assert(fields_view(old_rest)[0] == (old_rest[0].0@, old_rest[0].1));
            assert(fields_view(old_rest)[0] == all[taken as int]);
            assert(all[taken as int] == (k@, v));
            assert forall|j: int| 0 <= j < rest@.len() implies #[trigger] fields_view(rest@)[j]
                == fields_view(old_rest)[j + 1] by {
                assert(rest@[j] == old_rest[j + 1]);
            }
        }
        set_field(d, k, v);
        proof {
            let next = all.subrange(0, taken + 1);
            assert(next.drop_last() =~= all.subrange(0, taken as int));
            assert(next.last() == all[taken as int]);
            assert(fields_view(rest@) =~= all.subrange(taken + 1, all.len() as int));
        }
        taken = taken + 1;
    }
    proof {
        assert(all.subrange(0, all.len() as int) =~= all);
    }
}

/// Setting a field keeps the names distinct, and the field holds the value
/// set.
pub proof fn lemma_with_field<V>(d: Seq<(Seq<char>, V)>, k: Seq<char>, v: V)
    requires
        distinct_keys(d),
    ensures
        distinct_keys(with_field(d, k, v)),
        key_index(with_field(d, k, v), k) >= 0,
        with_field(d, k, v)[key_index(with_field(d, k, v), k)].1 == v,
        forall|other: Seq<char>|
            other != k ==> #[trigger] key_index(with_field(d, k, v), other) == key_index(d, other),
        forall|other: Seq<char>|
            other != k && key_index(d, other) >= 0 ==> #[trigger] with_field(d, k, v)[key_index(
                d,
                other,
            )] == d[key_index(d, other)],
{
    let r = with_field(d, k, v);
    lemma_key_index(d, k);
    lemma_key_index(r, k);
    let i = key_index(d, k);
    if i >= 0 {
        assert forall|a: int, b: int| 0 <= a < b < r.len() implies #[trigger] r[a].0 != #[trigger] r[b].0 by {
            assert(d[a].0 != d[b].0);
        }
        assert(r[i].0 == k);
    } else {
        assert forall|a: int, b: int| 0 <= a < b < r.len() implies #[trigger] r[a].0 != #[trigger] r[b].0 by {
            if b < d.len() {
                assert(d[a].0 != d[b].0);
            } else {
                assert(d[a].0 != k);
            }
        }
        assert(r[d.len() as int].0 == k);
    }
    assert forall|other: Seq<char>| other != k implies #[trigger] key_index(r, other) == key_index(
        d,
        other,
    ) by {
        lemma_key_index(d, other);
        lemma_key_index(r, other);
        let x = key_index(d, other);
        let y = key_index(r, other);
        if x >= 0 {
            assert(r[x].0 == other);
            if y >= 0 && y < x {
                assert(d[y].0 == r[y].0);
            }
        } else {
            if y >= 0 && y < d.len() {
                assert(d[y].0 == r[y].0);
            }
        }
    }
    assert forall|other: Seq<char>| other != k && key_index(d, other) >= 0 implies #[trigger] r[key_index(
        d,
        other,
    )] == d[key_index(d, other)] by {
        lemma_key_index(d, other);
    }
}

/// The value last given to field `k` among the fields, if any.
pub open spec fn last_value<V>(fields: Seq<(Seq<char>, V)>, k: Seq<char>) -> Option<V>
    decreases fields.len(),
{
    if fields.len() == 0 {
        None
    } else if fields.last().0 == k {
        Some(fields.last().1)
    } else {
        last_value(fields.drop_last(), k)
    }
}

/// The value of field `k` of a document with distinct names, if present.
pub open spec fn field_value<V>(d: Seq<(Seq<char>, V)>, k: Seq<char>) -> Option<V> {
    if key_index(d, k) >= 0 {
        Some(d[key_index(d, k)].1)
    } else {
        None
    }
}

/// Setting fields in order keeps the names distinct; each field set ends
/// with the last value given to it, and every other field is unchanged.
pub proof fn lemma_with_fields<V>(d: Seq<(Seq<char>, V)>, fields: Seq<(Seq<char>, V)>)
    requires
        distinct_keys(d),
    ensures
        distinct_keys(with_fields(d, fields)),
        forall|k: Seq<char>| #[trigger] field_value(with_fields(d, fields), k) == match last_value(fields, k) {
            Some(v) => Some(v),
            None => field_value(d, k),
        },
    decreases fields.len(),
{
    if fields.len() > 0 {
        let prev = with_fields(d, fields.drop_last());
        let last = fields.last();
        lemma_with_fields(d, fields.drop_last());
        lemma_with_field(prev, last.0, last.1);
        let r = with_fields(d, fields);
        assert(r == with_field(prev, last.0, last.1));
        assert forall|k: Seq<char>| #[trigger] field_value(r, k) == match last_value(fields, k) {
            Some(v) => Some(v),
            None => field_value(d, k),
        } by {
            assert(field_value(prev, k) == match last_value(fields.drop_last(), k) {
                Some(v) => Some(v),
                None => field_value(d, k),
            });
            if k != last.0 {
                assert(key_index(r, k) == key_index(prev, k));
            }
        }
    }
}

} // verus!
