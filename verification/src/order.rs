//! Stable sorting by a rank, and the removal of adjacent duplicates.
use vstd::prelude::*;
use crate::text;
use crate::text::{precedes, same_text};

verus! {

/// Values that a rank orders; values of equal rank keep their places when sorted.
pub trait Ranked: Sized {
    /// Whether `self` ranks strictly before `other`.
    spec fn ranks_before(&self, other: &Self) -> bool;

    /// Two values never rank before each other.
    proof fn lemma_asymmetric(a: &Self, b: &Self)
        ensures
            !(a.ranks_before(b) && b.ranks_before(a)),
    ;

    /// Not ranking before is transitive.
    proof fn lemma_not_before_transitive(a: &Self, b: &Self, c: &Self)
        requires
            !b.ranks_before(a),
            !c.ranks_before(b),
        ensures
            !c.ranks_before(a),
    ;

    /// Whether `self` ranks strictly before `other`.
    fn is_before(&self, other: &Self) -> (before: bool)
        ensures
            before == self.ranks_before(other),
    ;
}

/// Whether no value ranks before an earlier one.
pub open spec fn is_ranked<T: Ranked>(s: Seq<T>) -> bool {
    forall|i: int, j: int|
        #![trigger s[i], s[j]]
        0 <= i < j < s.len() ==> !s[j].ranks_before(&s[i])
}

fn insertion_point<T: Ranked>(sorted: &Vec<T>, value: &T) -> (at: usize)
    requires
        is_ranked(sorted@),
    ensures
        at <= sorted@.len(),
        forall|i: int| 0 <= i < at ==> (#[trigger] sorted@[i]).ranks_before(value),
        forall|i: int| at <= i < sorted@.len() ==> !(#[trigger] sorted@[i]).ranks_before(value),
{
    let mut at: usize = 0;
    while at < sorted.len() && sorted[at].is_before(value)
        invariant
            at <= sorted@.len(),
            forall|i: int| 0 <= i < at ==> (#[trigger] sorted@[i]).ranks_before(value),
        decreases sorted@.len() - at,
    {
        at = at + 1;
    }
    proof {
        assert forall|i: int| at <= i < sorted@.len() implies !(#[trigger] sorted@[i]).ranks_before(
            value,
        ) by {
            if i > at {
                if sorted@[i].ranks_before(value) {
                    T::lemma_not_before_transitive(value, &sorted@[at as int], &sorted@[i]);
                }
            }
        }
    }
    at
}

/// The values in rank order; values of equal rank keep their order.
pub fn sort_ranked<T: Ranked>(values: Vec<T>) -> (sorted: Vec<T>)
    ensures
        is_ranked(sorted@),
        sorted@.to_multiset() == values@.to_multiset(),
        sorted@.len() == values@.len(),
{
    broadcast use vstd::seq_lib::group_to_multiset_ensures;

    let mut rest = values;
    let mut sorted: Vec<T> = Vec::new();
    assert(sorted@.to_multiset().add(rest@.to_multiset()) =~= values@.to_multiset());
    while rest.len() > 0
        invariant
            is_ranked(sorted@),
            sorted@.to_multiset().add(rest@.to_multiset()) == values@.to_multiset(),
            sorted@.len() + rest@.len() == values@.len(),
        decreases rest@.len(),
    {
        broadcast use vstd::seq_lib::group_to_multiset_ensures;

        let ghost before = rest@;
        let ghost placed = sorted@;
        match rest.pop() {
            Some(value) => {
                let at = insertion_point(&sorted, &value);
                proof {
                    assert(before =~= rest@.push(value));
                    vstd::seq_lib::to_multiset_build(rest@, value);
                    vstd::seq_lib::to_multiset_insert(placed, at as int, value);
                }
                sorted.insert(at, value);
                proof {
                    let s = sorted@;
                    assert(s =~= placed.insert(at as int, value));
                    assert forall|i: int, j: int|
                        #![trigger s[i], s[j]]
                        0 <= i < j < s.len() implies !s[j].ranks_before(&s[i]) by {
                        if i == at {
                            assert(s[j] == placed[j - 1]);
                        } else if j == at {
                            assert(s[i] == placed[i]);
                            T::lemma_asymmetric(&s[i], &value);
                        } else if j < at {
                            assert(s[i] == placed[i] && s[j] == placed[j]);
                        } else if i < at {
                            assert(s[i] == placed[i] && s[j] == placed[j - 1]);
                        } else {
                            assert(s[i] == placed[i - 1] && s[j] == placed[j - 1]);
                        }
                    }
                    assert(s.to_multiset().add(rest@.to_multiset()) =~= values@.to_multiset());
                }
            },
            None => {},
        }
    }
    assert(rest@ =~= Seq::<T>::empty());
    assert(sorted@.to_multiset() =~= values@.to_multiset());
    sorted
}

/// Reordering a sequence keeps what it contains.
pub proof fn lemma_same_elements<T>(a: Seq<T>, b: Seq<T>, value: T)
    requires
        a.to_multiset() == b.to_multiset(),
    ensures
        a.contains(value) == b.contains(value),
{
    broadcast use vstd::seq_lib::group_to_multiset_ensures;

    vstd::seq_lib::to_multiset_contains(a, value);
    vstd::seq_lib::to_multiset_contains(b, value);
}

impl Ranked for String {
    open spec fn ranks_before(&self, other: &Self) -> bool {
        text::text_before(self@, other@)
    }

    proof fn lemma_asymmetric(a: &Self, b: &Self) {
        text::lemma_text_order(a@, b@);
    }

    proof fn lemma_not_before_transitive(a: &Self, b: &Self, c: &Self) {
        text::lemma_text_order(a@, b@);
        text::lemma_text_order(b@, c@);
        text::lemma_text_order(a@, c@);
        assert(!b.ranks_before(a) && !c.ranks_before(b));
        if text::text_before(a@, b@) && text::text_before(b@, c@) {
            text::lemma_text_transitive(a@, b@, c@);
        }
    }

    fn is_before(&self, other: &Self) -> (before: bool) {
        precedes(self.as_str(), other.as_str())
    }
}

impl Ranked for i64 {
    open spec fn ranks_before(&self, other: &Self) -> bool {
        *self < *other
    }

    proof fn lemma_asymmetric(a: &Self, b: &Self) {
    }

    proof fn lemma_not_before_transitive(a: &Self, b: &Self, c: &Self) {
    }

    fn is_before(&self, other: &Self) -> (before: bool) {
        *self < *other
    }
}

/// The order of definition keys: by kind, and by version within a kind.
pub open spec fn key_before(a: (Seq<char>, int), b: (Seq<char>, int)) -> bool {
    text::text_before(a.0, b.0) || (a.0 == b.0 && a.1 < b.1)
}

/// The order of definition keys is a strict total order.
pub proof fn lemma_key_order(a: (Seq<char>, int), b: (Seq<char>, int))
    ensures
        !(key_before(a, b) && key_before(b, a)),
        !key_before(a, b) && !key_before(b, a) ==> a == b,
        !key_before(a, a),
{
    text::lemma_text_order(a.0, b.0);
    text::lemma_text_order(a.0, a.0);
}

/// The order of definition keys is transitive.
pub proof fn lemma_key_transitive(a: (Seq<char>, int), b: (Seq<char>, int), c: (Seq<char>, int))
    requires
        key_before(a, b),
        key_before(b, c),
    ensures
        key_before(a, c),
{
    if text::text_before(a.0, b.0) && text::text_before(b.0, c.0) {
        text::lemma_text_transitive(a.0, b.0, c.0);
    }
}

/// The view of a kind and version.
pub open spec fn pair_view(pair: (String, i32)) -> (Seq<char>, int) {
    (pair.0@, pair.1 as int)
}

impl Ranked for (String, i32) {
    open spec fn ranks_before(&self, other: &Self) -> bool {
        key_before(pair_view(*self), pair_view(*other))
    }

    proof fn lemma_asymmetric(a: &Self, b: &Self) {
        lemma_key_order(pair_view(*a), pair_view(*b));
    }

    proof fn lemma_not_before_transitive(a: &Self, b: &Self, c: &Self) {
        let (x, y, z) = (pair_view(*a), pair_view(*b), pair_view(*c));
        lemma_key_order(x, y);
        lemma_key_order(y, z);
        lemma_key_order(x, z);
        if x != y && y != z {
            lemma_key_transitive(x, y, z);
        }
    }

    fn is_before(&self, other: &Self) -> (before: bool) {
        precedes(self.0.as_str(), other.0.as_str()) || (same_text(
            self.0.as_str(),
            other.0.as_str(),
        ) && self.1 < other.1)
    }
}

/// Whether each value is strictly before every later one.
pub open spec fn strictly_ranked<T: Ranked>(s: Seq<T>) -> bool {
    forall|i: int, j: int|
        #![trigger s[i], s[j]]
        0 <= i < j < s.len() ==> s[i].ranks_before(&s[j])
}

/// Whether two values have the same rank.
pub open spec fn same_rank<T: Ranked>(a: T, b: T) -> bool {
    !a.ranks_before(&b) && !b.ranks_before(&a)
}

/// Whether some value of the sequence has the rank of `value`.
pub open spec fn represented<T: Ranked>(value: T, s: Seq<T>) -> bool {
    exists|j: int| 0 <= j < s.len() && #[trigger] same_rank(value, s[j])
}

/// Keeps the first of each run of values of the same rank.
pub fn dedup_ranked<T: Ranked>(values: Vec<T>) -> (unique: Vec<T>)
    requires
        is_ranked(values@),
    ensures
        strictly_ranked(unique@),
        forall|i: int| 0 <= i < unique@.len() ==> values@.contains(#[trigger] unique@[i]),
        forall|i: int| 0 <= i < values@.len() ==> represented(#[trigger] values@[i], unique@),
{
    let ghost all = values@;
    let mut rest = values;
    let mut unique: Vec<T> = Vec::new();
    while rest.len() > 0
        invariant
            is_ranked(all),
            rest@.len() <= all.len(),
            rest@ == all.take(rest@.len() as int),
            strictly_ranked(unique@),
            forall|i: int| 0 <= i < unique@.len() ==> all.contains(#[trigger] unique@[i]),
            forall|i: int, j: int|
                #![trigger all[i], unique@[j]]
                0 <= i < rest@.len() && 0 <= j < unique@.len() ==> all[i].ranks_before(&unique@[j]),
            forall|i: int|
                rest@.len() <= i < all.len() ==> represented(#[trigger] all[i], unique@) || (
                rest@.len() > 0 && same_rank(all[i], all[rest@.len() - 1])),
        decreases rest@.len(),
    {
        let ghost shown = rest@.len() as int;
        let ghost kept = unique@;
        match rest.pop() {
            Some(value) => {
                assert(value == all[shown - 1]);
                assert(rest@ =~= all.take(shown - 1));
                let repeated = if rest.len() > 0 {
                    !rest[rest.len() - 1].is_before(&value)
                } else {
                    false
                };
                if repeated {
                    proof {
                        assert(rest@[shown - 2] == all[shown - 2]);
                        assert(same_rank(value, all[shown - 2]));
                        assert forall|i: int| rest@.len() <= i < all.len() implies represented(
                            #[trigger] all[i],
                            unique@,
                        ) || (rest@.len() > 0 && same_rank(all[i], all[rest@.len() - 1])) by {
                            if i >= shown && !represented(all[i], unique@) {
                                lemma_same_rank_chain(all[i], value, all[shown - 2]);
                            }
                        }
                    }
                } else {
                    proof {
                        assert(all.contains(value));
                        T::lemma_asymmetric(&value, &value);
                        assert forall|i: int| 0 <= i < rest@.len() implies (
                        #[trigger] all[i]).ranks_before(&value) by {
                            assert(rest@[shown - 2] == all[shown - 2]);
                            if i < shown - 2 && !all[i].ranks_before(&value) {
                                T::lemma_not_before_transitive(&value, &all[i], &all[shown - 2]);
                            }
                        }
                    }
                    unique.insert(0, value);
                    proof {
                        assert(unique@ =~= seq![value] + kept);
                        assert forall|i: int| 0 <= i < unique@.len() implies all.contains(
                            #[trigger] unique@[i],
                        ) by {
                            if i > 0 {
                                assert(unique@[i] == kept[i - 1]);
                            }
                        }
                        assert forall|i: int, j: int|
                            #![trigger unique@[i], unique@[j]]
                            0 <= i < j < unique@.len() implies unique@[i].ranks_before(
                            &unique@[j],
                        ) by {
                            assert(unique@[j] == kept[j - 1]);
                            if i == 0 {
                                assert(all[shown - 1].ranks_before(&kept[j - 1]));
                            } else {
                                assert(unique@[i] == kept[i - 1]);
                            }
                        }
                        assert forall|i: int, j: int|
                            #![trigger all[i], unique@[j]]
                            0 <= i < rest@.len() && 0 <= j < unique@.len() implies all[i].ranks_before(
                            &unique@[j],
                        ) by {
                            if j > 0 {
                                assert(unique@[j] == kept[j - 1]);
                            }
                        }
                        assert forall|i: int| rest@.len() <= i < all.len() implies represented(
                            #[trigger] all[i],
                            unique@,
                        ) || (rest@.len() > 0 && same_rank(all[i], all[rest@.len() - 1])) by {
                            if i == shown - 1 || same_rank(all[i], value) {
                                assert(same_rank(all[i], unique@[0]));
                            } else {
                                let j = choose|j: int|
                                    0 <= j < kept.len() && #[trigger] same_rank(all[i], kept[j]);
                                assert(unique@[j + 1] == kept[j]);
                                assert(same_rank(all[i], unique@[j + 1]));
                            }
                        }
                    }
                }
            },
            None => {},
        }
    }
    unique
}

proof fn lemma_same_rank_chain<T: Ranked>(a: T, b: T, c: T)
    requires
        same_rank(a, b),
        same_rank(b, c),
    ensures
        same_rank(a, c),
{
    T::lemma_not_before_transitive(&a, &b, &c);
    T::lemma_not_before_transitive(&c, &b, &a);
}

} // verus!
