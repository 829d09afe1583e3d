//! The order of texts, and insertion in order.
use crate::text::chars_of;
use vstd::prelude::*;

verus! {

/// Whether `a` comes before `b` in the order of their characters' code points,
/// or is the same text.
pub open spec fn text_leq(a: Seq<char>, b: Seq<char>) -> bool
    decreases a.len(),
{
    if a.len() == 0 {
        true
    } else if b.len() == 0 {
        false
    } else if a[0] == b[0] {
        text_leq(a.skip(1), b.skip(1))
    } else {
        a[0] < b[0]
    }
}

/// Any two texts are ordered one way or the other, and both ways only where
/// they are the same.
pub proof fn lemma_text_leq_total(a: Seq<char>, b: Seq<char>)
    ensures
        text_leq(a, b) || text_leq(b, a),
        text_leq(a, b) && text_leq(b, a) ==> a == b,
        a == b ==> text_leq(a, b),
    decreases a.len(),
{
    if a.len() > 0 && b.len() > 0 && a[0] == b[0] {
        lemma_text_leq_total(a.skip(1), b.skip(1));
        if text_leq(a, b) && text_leq(b, a) {
            assert(a =~= seq![a[0]] + a.skip(1));
            assert(b =~= seq![b[0]] + b.skip(1));
        }
    } else if a.len() == 0 && b.len() == 0 {
        assert(a =~= b);
    }
}

/// The order of texts is transitive.
pub proof fn lemma_text_leq_transitive(a: Seq<char>, b: Seq<char>, c: Seq<char>)
    requires
        text_leq(a, b),
        text_leq(b, c),
    ensures
        text_leq(a, c),
    decreases a.len(),
{
    if a.len() > 0 && b.len() > 0 && c.len() > 0 && a[0] == b[0] && b[0] == c[0] {
        lemma_text_leq_transitive(a.skip(1), b.skip(1), c.skip(1));
    }
}

/// Whether `a` comes before `b` or is the same text.
pub fn not_after(a: &str, b: &str) -> (r: bool)
    ensures
        r == text_leq(a@, b@),
{
    let left: Vec<char> = chars_of(a);
    let right: Vec<char> = chars_of(b);
    let mut i: usize = 0;
    assert(a@.skip(0) =~= a@);
    assert(b@.skip(0) =~= b@);
    while i < left.len() && i < right.len()
        invariant
            i <= left.len(),
            i <= right.len(),
            left@ == a@,
            right@ == b@,
            text_leq(a@, b@) == text_leq(a@.skip(i as int), b@.skip(i as int)),
        decreases left.len() - i,
    {
        if left[i] != right[i] {
            return left[i] < right[i];
        }
        assert(a@.skip(i as int).skip(1) =~= a@.skip(i + 1));
        assert(b@.skip(i as int).skip(1) =~= b@.skip(i + 1));
        i = i + 1;
    }
    i == left.len()
}

/// Whether every element of `s` is in order with all that follow it.
pub open spec fn in_order<T>(s: Seq<T>, leq: spec_fn(T, T) -> bool) -> bool {
    forall|i: int, j: int| 0 <= i < j < s.len() ==> leq(#[trigger] s[i], #[trigger] s[j])
}

/// Whether `leq` orders any two values and is transitive.
pub open spec fn orders<T>(leq: spec_fn(T, T) -> bool) -> bool {
    &&& forall|a: T, b: T| #[trigger] leq(a, b) || leq(b, a)
    &&& forall|a: T, b: T, c: T| #[trigger] leq(a, b) && #[trigger] leq(b, c) ==> leq(a, c)
}

/// Inserts `item` behind every element that it is not before.
pub fn insert_in_order<T, F: Fn(&T, &T) -> bool>(
    list: &mut Vec<T>,
    item: T,
    not_after: F,
    Ghost(leq): Ghost<spec_fn(T, T) -> bool>,
)
    requires
        orders(leq),
        in_order(old(list)@, leq),
        forall|a: T, b: T| call_requires(not_after, (&a, &b)),
        forall|a: T, b: T, r: bool| call_ensures(not_after, (&a, &b), r) ==> r == leq(a, b),
    ensures
        in_order(final(list)@, leq),
        final(list)@.to_multiset() == old(list)@.to_multiset().insert(item),
        exists|k: int| 0 <= k <= old(list)@.len() && final(list)@ == old(list)@.insert(k, item),
{
    let ghost before = list@;
    let mut i: usize = list.len();
    while i > 0 && !not_after(&list[i - 1], &item)
        invariant
            i <= list@.len(),
            list@ == before,
            orders(leq),
            in_order(before, leq),
            forall|a: T, b: T| call_requires(not_after, (&a, &b)),
            forall|a: T, b: T, r: bool| call_ensures(not_after, (&a, &b), r) ==> r == leq(a, b),
            forall|k: int| i <= k < before.len() ==> leq(item, #[trigger] before[k]),
        decreases i,
    {
        assert(!leq(before[i - 1], item));
        assert(leq(before[i - 1], item) || leq(item, before[i - 1]));
        i = i - 1;
    }
    proof {
        if i > 0 {
            assert(leq(before[i - 1], item));
            assert forall|k: int| 0 <= k < i implies leq(#[trigger] before[k], item) by {
                if k < i - 1 {
                    assert(leq(before[k], before[i - 1]));
                }
            }
        }
        vstd::seq_lib::to_multiset_insert(before, i as int, item);
    }
    list.insert(i, item);
    proof {
        let after = before.insert(i as int, item);
        assert forall|a: int, b: int| 0 <= a < b < after.len() implies leq(
            #[trigger] after[a],
            #[trigger] after[b],
        ) by {
            let before_a = if a < i {
                a
            } else {
                a - 1
            };
            let before_b = if b < i {
                b
            } else {
                b - 1
            };
            if a == i {
                assert(after[b] == before[before_b]);
            } else if b == i {
                assert(after[a] == before[before_a]);
            } else {
                assert(after[a] == before[before_a]);
                assert(after[b] == before[before_b]);
            }
        }
    }
}

/// Texts are ordered by the first character in which they differ, and a text comes
/// before every longer one that it begins.
pub proof fn law_texts_are_ordered_by_their_first_difference(
    head: Seq<char>,
    a: Seq<char>,
    b: Seq<char>,
)
    ensures
        text_leq(head, head + a),
        a.len() > 0 ==> !text_leq(head + a, head),
        a.len() > 0 && b.len() > 0 && a[0] != b[0] ==> (text_leq(head + a, head + b) <==> a[0]
            < b[0]),
    decreases head.len(),
{
    if head.len() > 0 {
        law_texts_are_ordered_by_their_first_difference(head.skip(1), a, b);
        assert((head + a).skip(1) =~= head.skip(1) + a);
        assert((head + b).skip(1) =~= head.skip(1) + b);
    } else {
        assert(head + a =~= a);
        assert(head + b =~= b);
    }
}

} // verus!
