//! Sorter: stable, case-insensitive ordering of the combined identifier
//! sequence. The order is pinned down exactly: the result equals a stable
//! insertion sort under the lowercase-form key, so ties keep their input
//! order and nothing is deduplicated.

use vstd::prelude::*;

use crate::text::{lower_of, lowercase};

verus! {

/// Lexicographic order on character sequences, by Unicode scalar value.
pub open spec fn seq_le(a: Seq<char>, b: Seq<char>) -> bool
    decreases a.len(),
{
    if a.len() == 0 {
        true
    } else if b.len() == 0 {
        false
    } else if a[0] == b[0] {
        seq_le(a.drop_first(), b.drop_first())
    } else {
        (a[0] as u32) < (b[0] as u32)
    }
}

/// The case-insensitive comparison the sorter orders by: lexicographic
/// order of the lowercase forms.
pub open spec fn key_le(a: Seq<char>, b: Seq<char>) -> bool {
    seq_le(lower_of(a), lower_of(b))
}

/// Where a stable insertion places a new element: right before the first
/// element whose key is strictly greater, hence after every tie.
pub open spec fn insert_sorted(s: Seq<Seq<char>>, x: Seq<char>) -> Seq<Seq<char>>
    decreases s.len(),
{
    if s.len() == 0 {
        seq![x]
    } else if key_le(s[0], x) {
        seq![s[0]] + insert_sorted(s.drop_first(), x)
    } else {
        seq![x] + s
    }
}

/// The stable insertion sort of the sequence under the case-insensitive
/// key.
pub open spec fn sort_spec(s: Seq<Seq<char>>) -> Seq<Seq<char>>
    decreases s.len(),
{
    if s.len() == 0 {
        Seq::empty()
    } else {
        insert_sorted(sort_spec(s.drop_last()), s.last())
    }
}

/// Dropping a common prefix does not change the lexicographic comparison.
proof fn lemma_seq_le_skip(a: Seq<char>, b: Seq<char>, i: int)
    requires
        0 <= i <= a.len(),
        i <= b.len(),
        forall|j: int| 0 <= j < i ==> a[j] == b[j],
    ensures
        seq_le(a, b) == seq_le(a.skip(i), b.skip(i)),
    decreases i,
{
    if i == 0 {
        assert(a.skip(0) =~= a);
        assert(b.skip(0) =~= b);
    } else {
        assert(a.drop_first() =~= a.skip(1));
        assert(b.drop_first() =~= b.skip(1));
        assert(a.drop_first().skip(i - 1) =~= a.skip(i));
        assert(b.drop_first().skip(i - 1) =~= b.skip(i));
        lemma_seq_le_skip(a.drop_first(), b.drop_first(), i - 1);
    }
}

/// Compares two already-lowercased strings lexicographically.
fn str_le(a: &str, b: &str) -> (r: bool)
    ensures
        r == seq_le(a@, b@),
{
    let an: usize = a.unicode_len();
    let bn: usize = b.unicode_len();
    let mut i: usize = 0;
    while i < an && i < bn
        invariant
            i <= an,
            i <= bn,
            an == a@.len(),
            bn == b@.len(),
            forall|j: int| 0 <= j < i ==> a@[j] == b@[j],
        decreases an - i,
    {
        let ca = a.get_char(i);
        let cb = b.get_char(i);
        if ca != cb {
            proof {
                lemma_seq_le_skip(a@, b@, i as int);
                assert(a@.skip(i as int)[0] == a@[i as int]);
                assert(b@.skip(i as int)[0] == b@[i as int]);
            }
            return (ca as u32) < (cb as u32);
        }
        i += 1;
    }
    proof {
        lemma_seq_le_skip(a@, b@, i as int);
        assert(a@.skip(i as int).len() == an - i);
        assert(b@.skip(i as int).len() == bn - i);
        if i < an {
            assert(a@.skip(i as int)[0] == a@[i as int]);
        }
    }
    an <= bn
}

/// Compares two identifiers by their lowercase forms.
fn mods_le(a: &String, b: &String) -> (r: bool)
    ensures
        r == key_le(a@, b@),
{
    let la = lowercase(a.as_str());
    let lb = lowercase(b.as_str());
    str_le(la.as_str(), lb.as_str())
}

/// A stable insertion equals inserting at the first position whose key is
/// strictly greater than the new element's.
proof fn lemma_insert_at(s: Seq<Seq<char>>, x: Seq<char>, p: int)
    requires
        0 <= p <= s.len(),
        forall|j: int| 0 <= j < p ==> key_le(s[j], x),
        p < s.len() ==> !key_le(s[p], x),
    ensures
        insert_sorted(s, x) == s.insert(p, x),
    decreases p,
{
    if s.len() == 0 {
        assert(insert_sorted(s, x) =~= s.insert(0, x));
    } else if p == 0 {
        assert(insert_sorted(s, x) =~= s.insert(0, x));
    } else {
        assert(key_le(s[0], x));
        lemma_insert_at(s.drop_first(), x, p - 1);
        assert(seq![s[0]] + s.drop_first().insert(p - 1, x) =~= s.insert(p, x));
    }
}

/// The first position in the list whose key exceeds the new element's.
fn insert_position(list: &Vec<String>, x: &String) -> (p: usize)
    ensures
        p <= list.len(),
        forall|j: int| 0 <= j < p ==> key_le(list.deep_view()[j], x@),
        p < list.len() ==> !key_le(list.deep_view()[p as int], x@),
{
    let mut p: usize = 0;
    loop
        invariant
            p <= list.len(),
            forall|j: int| 0 <= j < p ==> key_le(list.deep_view()[j], x@),
        decreases list.len() - p,
    {
        if p >= list.len() {
            return p;
        }
        if !mods_le(&list[p], x) {
            return p;
        }
        p += 1;
    }
}

/// Sorts the identifier sequence stably by the case-insensitive key.
pub fn sort_mods(list: &Vec<String>) -> (r: Vec<String>)
    ensures
        r.deep_view() == sort_spec(list.deep_view()),
{
    let mut out: Vec<String> = Vec::new();
    let mut i: usize = 0;
    proof {
        assert(list.deep_view().subrange(0, 0) =~= Seq::<Seq<char>>::empty());
        assert(out.deep_view() =~= Seq::<Seq<char>>::empty());
    }
    while i < list.len()
        invariant
            i <= list.len(),
            out.deep_view() == sort_spec(list.deep_view().subrange(0, i as int)),
        decreases list.len() - i,
    {
        let x = list[i].clone();
        let p = insert_position(&out, &x);
        let ghost before = out.deep_view();
        out.insert(p, x);
        proof {
            assert(out.deep_view() =~= before.insert(p as int, list.deep_view()[i as int]));
            lemma_insert_at(before, list.deep_view()[i as int], p as int);
            assert(list.deep_view().subrange(0, i + 1).drop_last() =~= list.deep_view().subrange(
                0,
                i as int,
            ));
            assert(list.deep_view().subrange(0, i + 1).last() == list.deep_view()[i as int]);
        }
        i += 1;
    }
    proof {
        assert(list.deep_view().subrange(0, list.len() as int) =~= list.deep_view());
    }
    out
}

/// Whether the sequence is ordered under the case-insensitive key.
pub open spec fn sorted_by_key(s: Seq<Seq<char>>) -> bool {
    forall|i: int, j: int| 0 <= i < j < s.len() ==> key_le(s[i], s[j])
}

/// The lexicographic order is total.
proof fn lemma_seq_le_total(a: Seq<char>, b: Seq<char>)
    ensures
        seq_le(a, b) || seq_le(b, a),
    decreases a.len(),
{
    if a.len() == 0 || b.len() == 0 {
    } else if a[0] == b[0] {
        lemma_seq_le_total(a.drop_first(), b.drop_first());
    } else {
        vstd::utf8::char_u32_cast(a[0], a[0] as u32);
        vstd::utf8::char_u32_cast(b[0], b[0] as u32);
        assert(a[0] as u32 != b[0] as u32);
    }
}

/// The lexicographic order is transitive.
proof fn lemma_seq_le_trans(a: Seq<char>, b: Seq<char>, c: Seq<char>)
    requires
        seq_le(a, b),
        seq_le(b, c),
    ensures
        seq_le(a, c),
    decreases a.len(),
{
    if a.len() == 0 {
    } else if a[0] == b[0] && b[0] == c[0] {
        lemma_seq_le_trans(a.drop_first(), b.drop_first(), c.drop_first());
    }
}

/// A stable insertion into an ordered sequence keeps it ordered.
proof fn lemma_insert_sorted_preserves(s: Seq<Seq<char>>, x: Seq<char>)
    requires
        sorted_by_key(s),
    ensures
        sorted_by_key(insert_sorted(s, x)),
    decreases s.len(),
{
    if s.len() == 0 {
    } else if key_le(s[0], x) {
        assert(sorted_by_key(s.drop_first()));
        lemma_insert_sorted_preserves(s.drop_first(), x);
        let t = insert_sorted(s.drop_first(), x);
        let r = seq![s[0]] + t;
        assert forall|i: int, j: int| 0 <= i < j < r.len() implies key_le(r[i], r[j]) by {
            if i == 0 {
                lemma_insert_sorted_contains(s.drop_first(), x, t[j - 1]);
                if t[j - 1] == x {
                } else {
                    let k = choose|k: int|
                        0 <= k < s.drop_first().len() && s.drop_first()[k] == t[j - 1];
                    assert(key_le(s[0], s[k + 1]));
                }
            } else {
                assert(key_le(t[i - 1], t[j - 1]));
            }
        }
    } else {
        lemma_seq_le_total(lower_of(s[0]), lower_of(x));
        let r = seq![x] + s;
        assert forall|i: int, j: int| 0 <= i < j < r.len() implies key_le(r[i], r[j]) by {
            if i == 0 {
                if j == 1 {
                    assert(key_le(x, s[0]));
                } else {
                    assert(key_le(s[0], s[j - 1]));
                    lemma_seq_le_trans(lower_of(x), lower_of(s[0]), lower_of(s[j - 1]));
                }
            } else {
                assert(key_le(s[i - 1], s[j - 1]));
            }
        }
    }
}

/// The sorted sequence is ordered under the case-insensitive key.
pub proof fn lemma_sort_sorted(s: Seq<Seq<char>>)
    ensures
        sorted_by_key(sort_spec(s)),
    decreases s.len(),
{
    if s.len() == 0 {
    } else {
        lemma_sort_sorted(s.drop_last());
        lemma_insert_sorted_preserves(sort_spec(s.drop_last()), s.last());
    }
}

/// A stable insertion holds exactly the old elements and the new one.
pub proof fn lemma_insert_sorted_contains(s: Seq<Seq<char>>, x: Seq<char>, y: Seq<char>)
    ensures
        insert_sorted(s, x).contains(y) <==> (s.contains(y) || y == x),
    decreases s.len(),
{
    if s.len() == 0 {
        assert(insert_sorted(s, x)[0] == x);
        if insert_sorted(s, x).contains(y) {
            let k = choose|k: int|
                0 <= k < insert_sorted(s, x).len() && insert_sorted(s, x)[k] == y;
            assert(y == x);
        }
    } else if key_le(s[0], x) {
        lemma_insert_sorted_contains(s.drop_first(), x, y);
        assert forall|z: Seq<char>| s.contains(z) implies (z == s[0] || s.drop_first().contains(
            z,
        )) by {
            let k = choose|k: int| 0 <= k < s.len() && s[k] == z;
            if k > 0 {
                assert(s.drop_first()[k - 1] == z);
            }
        }
        assert forall|z: Seq<char>|
            (z == s[0] || s.drop_first().contains(z)) implies s.contains(z) by {
            if z == s[0] {
                assert(s[0] == z);
            } else {
                let k = choose|k: int| 0 <= k < s.drop_first().len() && s.drop_first()[k] == z;
                assert(s[k + 1] == z);
            }
        }
        let t = seq![s[0]] + insert_sorted(s.drop_first(), x);
        assert forall|z: Seq<char>| t.contains(z) implies (z == s[0] || insert_sorted(
            s.drop_first(),
            x,
        ).contains(z)) by {
            let k = choose|k: int| 0 <= k < t.len() && t[k] == z;
            if k > 0 {
                assert(insert_sorted(s.drop_first(), x)[k - 1] == z);
            }
        }
        assert forall|z: Seq<char>|
            (z == s[0] || insert_sorted(s.drop_first(), x).contains(z)) implies t.contains(z) by {
            if z == s[0] {
                assert(t[0] == z);
            } else {
                let k = choose|k: int|
                    0 <= k < insert_sorted(s.drop_first(), x).len() && insert_sorted(
                        s.drop_first(),
                        x,
                    )[k] == z;
                assert(t[k + 1] == z);
            }
        }
    } else {
        let t = seq![x] + s;
        assert(t[0] == x);
        assert forall|z: Seq<char>| t.contains(z) implies (z == x || s.contains(z)) by {
            let k = choose|k: int| 0 <= k < t.len() && t[k] == z;
            if k > 0 {
                assert(s[k - 1] == z);
            }
        }
        assert forall|z: Seq<char>| s.contains(z) implies t.contains(z) by {
            let k = choose|k: int| 0 <= k < s.len() && s[k] == z;
            assert(t[k + 1] == z);
        }
    }
}

/// Sorting neither adds nor loses identifiers.
pub proof fn lemma_sort_contains(s: Seq<Seq<char>>, y: Seq<char>)
    ensures
        sort_spec(s).contains(y) <==> s.contains(y),
    decreases s.len(),
{
    if s.len() == 0 {
    } else {
        lemma_sort_contains(s.drop_last(), y);
        lemma_insert_sorted_contains(sort_spec(s.drop_last()), s.last(), y);
        assert forall|z: Seq<char>| s.contains(z) implies (s.drop_last().contains(z) || z
            == s.last()) by {
            let k = choose|k: int| 0 <= k < s.len() && s[k] == z;
            if k < s.len() - 1 {
                assert(s.drop_last()[k] == z);
            }
        }
        assert forall|z: Seq<char>|
            (s.drop_last().contains(z) || z == s.last()) implies s.contains(z) by {
            if z == s.last() {
                assert(s[s.len() - 1] == z);
            } else if s.drop_last().contains(z) {
                let k = choose|k: int| 0 <= k < s.drop_last().len() && s.drop_last()[k] == z;
                assert(s[k] == z);
            }
        }
    }
}

} // verus!
