//! Sequences in which nothing occurs twice, kept in order of first
//! occurrence. The nodes and the edges of a dependency graph are such
//! sequences.

use vstd::prelude::*;

verus! {

/// `s` with `x` at its end, unless `s` holds `x` already.
pub open spec fn push_new<T>(s: Seq<T>, x: T) -> Seq<T> {
    if s.contains(x) {
        s
    } else {
        s.push(x)
    }
}

/// `base` followed by the items that it lacks, each once, in the order in
/// which they first occur in `items`.
pub open spec fn extend_distinct<T>(base: Seq<T>, items: Seq<T>) -> Seq<T>
    decreases items.len(),
{
    if items.len() == 0 {
        base
    } else {
        push_new(extend_distinct(base, items.drop_last()), items.last())
    }
}

/// The items of `items`, each once, in order of first occurrence.
pub open spec fn first_occurrences<T>(items: Seq<T>) -> Seq<T> {
    extend_distinct(Seq::empty(), items)
}

/// Extending by one more item is `push_new` of that item.
pub proof fn lemma_extend_push<T>(base: Seq<T>, items: Seq<T>, x: T)
    ensures
        extend_distinct(base, items.push(x)) == push_new(extend_distinct(base, items), x),
{
    assert(items.push(x).drop_last() =~= items);
}

/// Extending twice is extending by the concatenation.
pub proof fn lemma_extend_concat<T>(base: Seq<T>, a: Seq<T>, b: Seq<T>)
    ensures
        extend_distinct(extend_distinct(base, a), b) == extend_distinct(base, a + b),
    decreases b.len(),
{
    if b.len() > 0 {
        lemma_extend_concat(base, a, b.drop_last());
        assert((a + b).drop_last() =~= a + b.drop_last());
    }
}

/// What an extension holds: what the base held and what the items hold.
pub proof fn lemma_extend_contains<T>(base: Seq<T>, items: Seq<T>, x: T)
    ensures
        extend_distinct(base, items).contains(x) <==> base.contains(x) || items.contains(x),
    decreases items.len(),
{
    if items.len() > 0 {
        let front = extend_distinct(base, items.drop_last());
        lemma_extend_contains(base, items.drop_last(), x);
        lemma_push_new_contains(front, items.last(), x);
        if items.contains(x) {
            let i = choose|i: int| 0 <= i < items.len() && items[i] == x;
            if i < items.len() - 1 {
                assert(items.drop_last()[i] == x);
            }
        }
    }
}

/// What `push_new` holds: what the sequence held, and the item.
pub proof fn lemma_push_new_contains<T>(s: Seq<T>, y: T, x: T)
    ensures
        push_new(s, y).contains(x) <==> s.contains(x) || x == y,
{
    if !s.contains(y) {
        let t = s.push(y);
        if s.contains(x) {
            let i = choose|i: int| 0 <= i < s.len() && s[i] == x;
            assert(t[i] == x);
        }
        if x == y {
            assert(t[s.len() as int] == x);
        }
    }
}

/// An extension of a sequence without duplicates has none.
pub proof fn lemma_extend_no_duplicates<T>(base: Seq<T>, items: Seq<T>)
    requires
        base.no_duplicates(),
    ensures
        extend_distinct(base, items).no_duplicates(),
    decreases items.len(),
{
    if items.len() > 0 {
        lemma_extend_no_duplicates(base, items.drop_last());
    }
}

} // verus!
