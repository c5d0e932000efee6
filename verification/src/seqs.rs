//! Sequences with some items left out, and copies of lists.

use vstd::prelude::*;

verus! {

/// The items that `keep` admits, in their order.
pub open spec fn kept<T>(items: Seq<T>, keep: spec_fn(T) -> bool) -> Seq<T>
    decreases items.len(),
{
    if items.len() == 0 {
        Seq::empty()
    } else {
        let rest = kept(items.drop_last(), keep);
        if keep(items.last()) {
            rest.push(items.last())
        } else {
            rest
        }
    }
}

/// No two items of the list have one key.
pub open spec fn keys_distinct<T, K>(items: Seq<T>, key: spec_fn(T) -> K) -> bool {
    forall|i: int, j: int|
        0 <= i < items.len() && 0 <= j < items.len() && i != j ==> key(#[trigger] items[i]) != key(
            #[trigger] items[j],
        )
}

/// Going one item further in a list either adds that item to what is kept
/// or changes nothing.
pub proof fn lemma_kept_step<T>(items: Seq<T>, keep: spec_fn(T) -> bool, i: int)
    requires
        0 <= i < items.len(),
    ensures
        kept(items.take(i + 1), keep) == if keep(items[i]) {
            kept(items.take(i), keep).push(items[i])
        } else {
            kept(items.take(i), keep)
        },
{
    assert(items.take(i + 1).drop_last() =~= items.take(i));
    assert(items.take(i + 1).last() == items[i]);
}

/// Of no items none is kept, and the whole list is its own longest prefix.
pub proof fn lemma_kept_ends<T>(items: Seq<T>, keep: spec_fn(T) -> bool)
    ensures
        kept(items.take(0), keep) == Seq::<T>::empty(),
        kept(items.take(items.len() as int), keep) == kept(items, keep),
{
    assert(items.take(0) =~= Seq::<T>::empty());
    assert(items.take(items.len() as int) =~= items);
}

/// Two rules that admit the same items keep the same items.
pub proof fn lemma_kept_same<T>(items: Seq<T>, first: spec_fn(T) -> bool, second: spec_fn(T) -> bool)
    requires
        forall|x: T| #[trigger] first(x) == second(x),
    ensures
        kept(items, first) == kept(items, second),
    decreases items.len(),
{
    if items.len() > 0 {
        lemma_kept_same(items.drop_last(), first, second);
    }
}

/// What is kept is what the list held and `keep` admits: nothing new
/// appears, nothing admitted is lost, and a list of admitted items is left
/// as it is.
pub proof fn lemma_kept<T>(items: Seq<T>, keep: spec_fn(T) -> bool)
    ensures
        forall|x: T| #[trigger] kept(items, keep).contains(x) <==> items.contains(x) && keep(x),
        kept(items, keep).len() <= items.len(),
        (forall|i: int| 0 <= i < items.len() ==> keep(#[trigger] items[i])) ==> kept(items, keep)
            == items,
    decreases items.len(),
{
    let out = kept(items, keep);
    if items.len() == 0 {
        assert forall|x: T| #[trigger] out.contains(x) <==> items.contains(x) && keep(x) by {}
        assert(out =~= items);
    } else {
        let front = items.drop_last();
        let rest = kept(front, keep);
        let last = items.last();
        lemma_kept(front, keep);
        assert(items =~= front.push(last));
        assert forall|x: T| #[trigger] out.contains(x) <==> items.contains(x) && keep(x) by {
            if out.contains(x) {
                let i = choose|i: int| 0 <= i < out.len() && out[i] == x;
                if i < rest.len() {
                    assert(rest.contains(x));
                    let j = choose|j: int| 0 <= j < front.len() && front[j] == x;
                    assert(items[j] == x);
                } else {
                    assert(items[items.len() - 1] == x);
                }
            }
            if items.contains(x) && keep(x) {
                let j = choose|j: int| 0 <= j < items.len() && items[j] == x;
                if j < front.len() {
                    assert(front[j] == x);
                    assert(front.contains(x));
                    assert(rest.contains(x));
                    let i = choose|i: int| 0 <= i < rest.len() && rest[i] == x;
                    assert(out[i] == x);
                } else {
                    assert(out[out.len() - 1] == x);
                }
            }
        }
        if forall|i: int| 0 <= i < items.len() ==> keep(#[trigger] items[i]) {
            assert forall|i: int| 0 <= i < front.len() implies keep(#[trigger] front[i]) by {
                assert(keep(items[i]));
            }
            assert(keep(items[items.len() - 1]));
            assert(out =~= items);
        }
    }
}

/// Leaving items out keeps keys distinct.
pub proof fn lemma_kept_distinct<T, K>(
    items: Seq<T>,
    keep: spec_fn(T) -> bool,
    key: spec_fn(T) -> K,
)
    requires
        keys_distinct(items, key),
    ensures
        keys_distinct(kept(items, keep), key),
    decreases items.len(),
{
    let out = kept(items, keep);
    if items.len() > 0 {
        let front = items.drop_last();
        let rest = kept(front, keep);
        assert forall|a: int, b: int|
            0 <= a < front.len() && 0 <= b < front.len() && a != b implies key(
            #[trigger] front[a],
        ) != key(#[trigger] front[b]) by {
            assert(key(items[a]) != key(items[b]));
        }
        lemma_kept_distinct(front, keep, key);
        lemma_kept(front, keep);
        assert forall|a: int, b: int|
            0 <= a < out.len() && 0 <= b < out.len() && a != b implies key(#[trigger] out[a])
            != key(#[trigger] out[b]) by {
            if a < rest.len() && b < rest.len() {
                assert(key(rest[a]) != key(rest[b]));
            } else {
                let inner = if a < rest.len() {
                    a
                } else {
                    b
                };
                assert(rest.contains(rest[inner]));
                let j = choose|j: int| 0 <= j < front.len() && front[j] == rest[inner];
                assert(key(items[j]) != key(items[items.len() - 1]));
            }
        }
    }
}

/// Values that can be copied so that the copy has the same content.
pub trait DeepCopy: DeepView + Sized {
    /// A copy with the same content.
    fn deep_copy(&self) -> (copy: Self)
        ensures
            copy.deep_view() == self.deep_view(),
    ;
}

impl DeepCopy for String {
    fn deep_copy(&self) -> (copy: String) {
        self.clone()
    }
}

impl DeepCopy for u16 {
    fn deep_copy(&self) -> (copy: u16) {
        *self
    }
}

impl<T: DeepCopy> DeepCopy for Option<T> {
    fn deep_copy(&self) -> (copy: Option<T>) {
        match self {
            Some(value) => Some(value.deep_copy()),
            None => None,
        }
    }
}

impl<T: DeepCopy> DeepCopy for Vec<T> {
    fn deep_copy(&self) -> (copy: Vec<T>) {
        let mut copy: Vec<T> = Vec::new();
        let mut i: usize = 0;
        while i < self.len()
            invariant
                i <= self.len(),
                copy.len() == i,
                forall|j: int| 0 <= j < i ==> (#[trigger] copy[j]).deep_view() == self[j].deep_view(),
            decreases self.len() - i,
        {
            copy.push(self[i].deep_copy());
            i += 1;
        }
        assert(copy.deep_view() =~= self.deep_view());
        copy
    }
}

} // verus!
