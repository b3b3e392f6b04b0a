//! Listing things by title: the order of text keys, and a sort that keeps things
//! with the same key in the order they came in.
use vstd::prelude::*;

use crate::profile::{
    lemma_text_order_antisymmetric, lemma_text_order_transitive, text_order, text_rank, Rank,
};

verus! {

/// Something listed by a text key.
pub trait Titled: Sized {
    /// The key it is listed by.
    spec fn title_key(&self) -> Seq<char>;

    /// The key it is listed by.
    fn title_key_exec(&self) -> (r: Vec<char>)
        ensures
            r@ == self.title_key(),
    ;
}

/// `a` sorts after `b`: its key is greater in the order of `str`.
pub open spec fn sorts_after<T: Titled>(a: T, b: T) -> bool {
    text_order(a.title_key(), b.title_key()) == Rank::Greater
}

/// `x` put into `s` after every element that does not sort after it.
pub open spec fn insert_by_title<T: Titled>(s: Seq<T>, x: T) -> Seq<T>
    decreases s.len(),
{
    if s.len() == 0 {
        seq![x]
    } else if sorts_after(s.last(), x) {
        insert_by_title(s.drop_last(), x).push(s.last())
    } else {
        s.push(x)
    }
}

/// The elements in the order of their keys, those with the same key in the order
/// they came in.
pub open spec fn sorted_by_title<T: Titled>(s: Seq<T>) -> Seq<T>
    decreases s.len(),
{
    if s.len() == 0 {
        s
    } else {
        insert_by_title(sorted_by_title(s.drop_last()), s.last())
    }
}

/// No element sorts after one that follows it.
pub open spec fn in_title_order<T: Titled>(s: Seq<T>) -> bool {
    forall|i: int, j: int| 0 <= i < j < s.len() ==> !sorts_after(#[trigger] s[i], #[trigger] s[j])
}

/// Putting `x` at `j` is putting it in by title, when everything from `j` on sorts
/// after it and the object before `j` does not.
proof fn lemma_insert_at<T: Titled>(s: Seq<T>, x: T, j: int)
    requires
        0 <= j <= s.len(),
        forall|k: int| j <= k < s.len() ==> sorts_after(#[trigger] s[k], x),
        j == 0 || !sorts_after(s[j - 1], x),
    ensures
        insert_by_title(s, x) == s.insert(j, x),
    decreases s.len() - j,
{
    if s.len() == 0 {
        assert(s.insert(j, x) =~= seq![x]);
    } else if j == s.len() {
        assert(s.insert(j, x) =~= s.push(x));
    } else {
        assert(sorts_after(s[s.len() - 1], x));
        lemma_insert_at(s.drop_last(), x, j);
        assert(s.drop_last().insert(j, x).push(s.last()) =~= s.insert(j, x));
    }
}

/// Sorts by title, keeping the order of those with the same key.
pub fn sort_by_title<T: Titled>(items: Vec<T>) -> (r: Vec<T>)
    ensures
        r@ == sorted_by_title(items@),
{
    let ghost all = items@;
    let mut rest = items;
    let mut sorted: Vec<T> = Vec::new();
    proof {
        assert(all.take(0) =~= Seq::<T>::empty());
        assert(all.skip(0) =~= all);
    }
    while rest.len() > 0
        invariant
            rest.len() <= all.len(),
            rest@ == all.skip(all.len() - rest.len()),
            sorted@ == sorted_by_title(all.take(all.len() - rest.len())),
        decreases rest.len(),
    {
        let ghost done = (all.len() - rest.len()) as int;
        let ghost before = sorted@;
        let x = rest.remove(0);
        let key = x.title_key_exec();
        let mut j = sorted.len();
        while j > 0 && text_rank(sorted[j - 1].title_key_exec().as_slice(), key.as_slice())
            == Rank::Greater
            invariant
                j <= sorted.len(),
                sorted@ == before,
                key@ == x.title_key(),
                forall|k: int| j <= k < sorted.len() ==> sorts_after(#[trigger] sorted@[k], x),
            decreases j,
        {
            j = j - 1;
        }
        proof {
            lemma_insert_at(before, x, j as int);
            assert(all.take(done + 1).drop_last() =~= all.take(done));
            assert(all.skip(done)[0] == x);
            assert(all.take(done + 1).last() == x);
            assert(rest@ =~= all.skip(done + 1));
        }
        sorted.insert(j, x);
    }
    proof {
        assert(all.take(all.len() as int) =~= all);
    }
    sorted
}

/// Putting an object in by title keeps the elements in title order and adds just
/// that element.
proof fn lemma_insert_by_title<T: Titled>(s: Seq<T>, x: T)
    requires
        in_title_order(s),
    ensures
        in_title_order(insert_by_title(s, x)),
        insert_by_title(s, x).to_multiset() == s.to_multiset().insert(x),
    decreases s.len(),
{
    broadcast use vstd::seq_lib::group_to_multiset_ensures;

    if s.len() == 0 {
        assert(seq![x] =~= Seq::<T>::empty().push(x));
    } else {
        let last = s.last();
        let front = s.drop_last();
        assert(s =~= front.push(last));
        if sorts_after(last, x) {
            assert(in_title_order(front));
            lemma_insert_by_title(front, x);
            let t = insert_by_title(front, x);
            lemma_text_order_antisymmetric(last.title_key(), x.title_key());
            assert forall|i: int| 0 <= i < t.len() implies !sorts_after(#[trigger] t[i], last) by {
                assert(t.contains(t[i]));
                assert(t.to_multiset().count(t[i]) > 0);
                if t[i] != x {
                    assert(front.to_multiset().count(t[i]) > 0);
                    assert(front.contains(t[i]));
                    let k = choose|k: int| 0 <= k < front.len() && front[k] == t[i];
                    assert(s[k] == t[i]);
                    assert(s[s.len() - 1] == last);
                }
            }
            assert forall|i: int, j: int| 0 <= i < j < t.push(last).len() implies !sorts_after(
                #[trigger] t.push(last)[i],
                #[trigger] t.push(last)[j],
            ) by {
                if j == t.len() {
                    assert(t.push(last)[j] == last);
                    assert(t.push(last)[i] == t[i]);
                } else {
                    assert(t.push(last)[i] == t[i]);
                    assert(t.push(last)[j] == t[j]);
                }
            }
        } else {
            assert forall|i: int, j: int| 0 <= i < j < s.push(x).len() implies !sorts_after(
                #[trigger] s.push(x)[i],
                #[trigger] s.push(x)[j],
            ) by {
                if j == s.len() {
                    assert(s.push(x)[i] == s[i]);
                    if i < s.len() - 1 {
                        assert(!sorts_after(s[i], s[s.len() - 1]));
                        lemma_text_order_transitive(
                            s[i].title_key(),
                            last.title_key(),
                            x.title_key(),
                        );
                    }
                } else {
                    assert(s.push(x)[i] == s[i]);
                    assert(s.push(x)[j] == s[j]);
                }
            }
        }
    }
}

/// Sorting by title lists the same elements, each as often as before, in title
/// order.
pub proof fn lemma_sorted_by_title<T: Titled>(s: Seq<T>)
    ensures
        in_title_order(sorted_by_title(s)),
        sorted_by_title(s).to_multiset() == s.to_multiset(),
    decreases s.len(),
{
    broadcast use vstd::seq_lib::group_to_multiset_ensures;

    if s.len() > 0 {
        lemma_sorted_by_title(s.drop_last());
        lemma_insert_by_title(sorted_by_title(s.drop_last()), s.last());
        assert(s =~= s.drop_last().push(s.last()));
    }
}

} // verus!
