//! The order of module names, and sorting by it.

use crate::text::texts;
use vstd::prelude::*;
use vstd::string::*;

verus! {

/// `a` comes before `b` or equals it, in the order of the dictionary: the
/// first character in which they differ decides, by its code point, and a
/// name comes before its extensions.
pub open spec fn name_le(a: Seq<char>, b: Seq<char>) -> bool
    decreases a.len(),
{
    if a.len() == 0 {
        true
    } else if b.len() == 0 {
        false
    } else if a[0] != b[0] {
        (a[0] as int) < (b[0] as int)
    } else {
        name_le(a.skip(1), b.skip(1))
    }
}

/// No name of the sequence comes before a name that stands in front of it.
pub open spec fn sorted(names: Seq<Seq<char>>) -> bool {
    forall|i: int, j: int| 0 <= i <= j < names.len() ==> name_le(names[i], names[j])
}

/// A sorted sequence with `name` put behind the last name that does not come
/// after it.
pub open spec fn insert_sorted(names: Seq<Seq<char>>, name: Seq<char>) -> Seq<Seq<char>>
    decreases names.len(),
{
    if names.len() == 0 {
        seq![name]
    } else if name_le(names.last(), name) {
        names.push(name)
    } else {
        insert_sorted(names.drop_last(), name).push(names.last())
    }
}

/// The names in the order of the dictionary.
pub open spec fn sorted_names(names: Seq<Seq<char>>) -> Seq<Seq<char>>
    decreases names.len(),
{
    if names.len() == 0 {
        Seq::empty()
    } else {
        insert_sorted(sorted_names(names.drop_last()), names.last())
    }
}

/// The comparison `<=` of `str`, which compares strings by their bytes and
/// so, as its documentation says, by the code points of their characters.
#[verifier::external_body]
pub(crate) fn str_le(a: &str, b: &str) -> (r: bool)
    ensures
        r == name_le(a@, b@),
{
    a <= b
}

/// Of two names one comes before the other or equals it.
pub proof fn lemma_name_le_total(a: Seq<char>, b: Seq<char>)
    ensures
        name_le(a, b) || name_le(b, a),
    decreases a.len(),
{
    if a.len() > 0 && b.len() > 0 && a[0] == b[0] {
        lemma_name_le_total(a.skip(1), b.skip(1));
    }
}

/// The order of names is transitive.
pub proof fn lemma_name_le_transitive(a: Seq<char>, b: Seq<char>, c: Seq<char>)
    requires
        name_le(a, b),
        name_le(b, c),
    ensures
        name_le(a, c),
    decreases a.len(),
{
    if a.len() > 0 && b.len() > 0 && c.len() > 0 && a[0] == b[0] && b[0] == c[0] {
        lemma_name_le_transitive(a.skip(1), b.skip(1), c.skip(1));
    }
}

/// Inserting into a sorted sequence gives a sorted sequence with the same
/// names and the new one.
pub proof fn lemma_insert_sorted(names: Seq<Seq<char>>, name: Seq<char>)
    requires
        sorted(names),
    ensures
        sorted(insert_sorted(names, name)),
        insert_sorted(names, name).to_multiset() == names.to_multiset().insert(name),
        insert_sorted(names, name).len() == names.len() + 1,
    decreases names.len(),
{
    broadcast use vstd::seq_lib::group_to_multiset_ensures;

    let out = insert_sorted(names, name);
    if names.len() == 0 {
        lemma_name_le_total(name, name);
    } else if name_le(names.last(), name) {
        assert forall|i: int, j: int| 0 <= i <= j < out.len() implies name_le(out[i], out[j]) by {
            if j == names.len() {
                if i < names.len() {
                    lemma_name_le_transitive(names[i], names.last(), name);
                } else {
                    lemma_name_le_total(name, name);
                }
            }
        }
    } else {
        let front = names.drop_last();
        assert(sorted(front)) by {
            assert forall|i: int, j: int| 0 <= i <= j < front.len() implies name_le(
                front[i],
                front[j],
            ) by {
                assert(name_le(names[i], names[j]));
            }
        }
        lemma_insert_sorted(front, name);
        let inner = insert_sorted(front, name);
        lemma_name_le_total(names.last(), name);
        assert forall|i: int, j: int| 0 <= i <= j < out.len() implies name_le(out[i], out[j]) by {
            if j == inner.len() {
                if i < inner.len() {
                    assert(inner.to_multiset().count(inner[i]) > 0);
                } else {
                    lemma_name_le_total(names.last(), names.last());
                }
            }
        }
        assert(names =~= front.push(names.last()));
    }
}

/// Sorting gives a sorted sequence of the same names, each as often as
/// before.
pub proof fn lemma_sorted_names(names: Seq<Seq<char>>)
    ensures
        sorted(sorted_names(names)),
        sorted_names(names).to_multiset() == names.to_multiset(),
        sorted_names(names).len() == names.len(),
    decreases names.len(),
{
    broadcast use vstd::seq_lib::group_to_multiset_ensures;

    if names.len() > 0 {
        lemma_sorted_names(names.drop_last());
        lemma_insert_sorted(sorted_names(names.drop_last()), names.last());
        assert(names =~= names.drop_last().push(names.last()));
    }
}

/// Where a name stands behind every name that does not come after it and in
/// front of the others, there `insert_sorted` puts it.
proof fn lemma_insert_at(names: Seq<Seq<char>>, name: Seq<char>, p: int)
    requires
        0 <= p <= names.len(),
        p > 0 ==> name_le(names[p - 1], name),
        forall|k: int| p <= k < names.len() ==> !name_le(names[k], name),
    ensures
        insert_sorted(names, name) == names.insert(p, name),
    decreases names.len(),
{
    if p < names.len() {
        lemma_insert_at(names.drop_last(), name, p);
    }
}

/// Sorts names into the order of the dictionary.
pub fn sort_names(names: &Vec<String>) -> (out: Vec<String>)
    ensures
        texts(out@) == sorted_names(texts(names@)),
{
    let mut out: Vec<String> = Vec::new();
    let mut i: usize = 0;
    while i < names.len()
        invariant
            i <= names.len(),
            out.len() == i,
            texts(out@) == sorted_names(texts(names@).subrange(0, i as int)),
        decreases names.len() - i,
    {
        let mut p: usize = out.len();
        while p > 0 && !str_le(out[p - 1].as_str(), names[i].as_str())
            invariant
                p <= out.len(),
                i < names.len(),
                forall|k: int| p <= k < out.len() ==> !name_le(texts(out@)[k], names[i as int]@),
            decreases p,
        {
            p -= 1;
        }
        proof {
            let done = texts(names@).subrange(0, i as int);
            let next = texts(names@).subrange(0, i + 1);
            assert(next.drop_last() =~= done);
            lemma_insert_at(texts(out@), names[i as int]@, p as int);
        }
        out.insert(p, names[i].clone());
        i += 1;
    }
    assert(texts(names@).subrange(0, i as int) =~= texts(names@));
    out
}

} // verus!
