//! Going through a list item by item, where each item yields a value, yields
//! nothing, or fails and thereby ends the whole pass.

use crate::error::StoreError;
use vstd::prelude::*;

verus! {

/// What one item of a pass comes to: a value to keep, nothing, or a failure.
pub type Yield<R> = Result<Option<R>, StoreError>;

/// The values that the items yield, in the items' order. The first item that
/// fails makes the whole pass fail with its error.
pub open spec fn gather<T, R>(items: Seq<T>, each: spec_fn(T) -> Yield<R>) -> Result<
    Seq<R>,
    StoreError,
>
    decreases items.len(),
{
    if items.len() == 0 {
        Ok(Seq::empty())
    } else {
        match gather(items.drop_last(), each) {
            Err(e) => Err(e),
            Ok(kept) => match each(items.last()) {
                Err(e) => Err(e),
                Ok(Some(value)) => Ok(kept.push(value)),
                Ok(None) => Ok(kept),
            },
        }
    }
}

/// A pass over the first `upto + 1` items is the pass over the first `upto`
/// followed by the item at `upto`.
pub proof fn lemma_gather_next<T, R>(items: Seq<T>, each: spec_fn(T) -> Yield<R>, upto: int)
    requires
        0 <= upto < items.len(),
    ensures
        gather(items.take(upto + 1), each) == (match gather(items.take(upto), each) {
            Err(e) => Err(e),
            Ok(kept) => match each(items[upto]) {
                Err(e) => Err(e),
                Ok(Some(value)) => Ok(kept.push(value)),
                Ok(None) => Ok(kept),
            },
        }),
{
    assert(items.take(upto + 1).drop_last() =~= items.take(upto));
}

/// A pass that has failed on a prefix fails in the same way on the whole list.
pub proof fn lemma_gather_fails<T, R>(items: Seq<T>, each: spec_fn(T) -> Yield<R>, upto: int)
    requires
        0 <= upto <= items.len(),
        gather(items.take(upto), each) is Err,
    ensures
        gather(items, each) == gather(items.take(upto), each),
    decreases items.len(),
{
    if upto == items.len() {
        assert(items.take(upto) =~= items);
    } else {
        assert(items.drop_last().take(upto) =~= items.take(upto));
        lemma_gather_fails(items.drop_last(), each, upto);
    }
}

/// A pass in which no item fails succeeds.
pub proof fn lemma_gather_total<T, R>(items: Seq<T>, each: spec_fn(T) -> Yield<R>)
    requires
        forall|item: T| (#[trigger] each(item)) is Ok,
    ensures
        gather(items, each) is Ok,
    decreases items.len(),
{
    if items.len() > 0 {
        lemma_gather_total(items.drop_last(), each);
    }
}

/// Every item that yields a value has that value kept by a pass that succeeds.
pub proof fn lemma_gather_keeps<T, R>(items: Seq<T>, each: spec_fn(T) -> Yield<R>, i: int)
    requires
        gather(items, each) is Ok,
        0 <= i < items.len(),
        each(items[i]) matches Ok(Some(_)),
    ensures
        exists|at: int|
            0 <= at < gather(items, each)->Ok_0.len() && each(items[i]) == Ok::<
                Option<R>,
                StoreError,
            >(Some(#[trigger] gather(items, each)->Ok_0[at])),
    decreases items.len(),
{
    let front = items.drop_last();
    let kept = gather(front, each)->Ok_0;
    let all = gather(items, each)->Ok_0;
    if i < front.len() {
        assert(items[i] == front[i]);
        lemma_gather_keeps(front, each, i);
        let at = choose|at: int|
            0 <= at < kept.len() && each(front[i]) == Ok::<Option<R>, StoreError>(
                Some(#[trigger] kept[at]),
            );
        assert(all[at] == kept[at]);
    } else {
        let at = all.len() - 1;
        assert(each(items[i]) == Ok::<Option<R>, StoreError>(Some(all[at])));
    }
}

/// A pass that succeeds and in which no item yields nothing keeps one value for
/// each item.
pub proof fn lemma_gather_keeps_all<T, R>(items: Seq<T>, each: spec_fn(T) -> Yield<R>)
    requires
        gather(items, each) is Ok,
        forall|i: int| 0 <= i < items.len() ==> (#[trigger] each(items[i])) != Ok::<
            Option<R>,
            StoreError,
        >(None),
    ensures
        gather(items, each)->Ok_0.len() == items.len(),
    decreases items.len(),
{
    if items.len() > 0 {
        let front = items.drop_last();
        assert forall|i: int| 0 <= i < front.len() implies (#[trigger] each(front[i])) != Ok::<
            Option<R>,
            StoreError,
        >(None) by {
            assert(front[i] == items[i]);
        }
        lemma_gather_keeps_all(front, each);
        assert(each(items[items.len() - 1]) != Ok::<Option<R>, StoreError>(None));
    }
}

/// A pass in which every item yields nothing keeps nothing.
pub proof fn lemma_gather_keeps_none<T, R>(items: Seq<T>, each: spec_fn(T) -> Yield<R>)
    requires
        forall|i: int| 0 <= i < items.len() ==> (#[trigger] each(items[i])) == Ok::<
            Option<R>,
            StoreError,
        >(None),
    ensures
        gather(items, each) == Ok::<Seq<R>, StoreError>(Seq::empty()),
    decreases items.len(),
{
    if items.len() > 0 {
        let front = items.drop_last();
        assert forall|i: int| 0 <= i < front.len() implies (#[trigger] each(front[i])) == Ok::<
            Option<R>,
            StoreError,
        >(None) by {
            assert(front[i] == items[i]);
        }
        lemma_gather_keeps_none(front, each);
        assert(each(items[items.len() - 1]) == Ok::<Option<R>, StoreError>(None));
    }
}

/// Every value that a pass kept is what some item yielded.
pub proof fn lemma_gather_kept<T, R>(items: Seq<T>, each: spec_fn(T) -> Yield<R>, at: int)
    requires
        gather(items, each) is Ok,
        0 <= at < gather(items, each)->Ok_0.len(),
    ensures
        exists|i: int|
            0 <= i < items.len() && #[trigger] each(items[i]) == Ok::<Option<R>, StoreError>(
                Some(gather(items, each)->Ok_0[at]),
            ),
    decreases items.len(),
{
    if items.len() > 0 {
        let front = items.drop_last();
        let kept = gather(front, each)->Ok_0;
        if at < kept.len() {
            lemma_gather_kept(front, each, at);
            let i = choose|i: int|
                0 <= i < front.len() && #[trigger] each(front[i]) == Ok::<Option<R>, StoreError>(
                    Some(kept[at]),
                );
            assert(items[i] == front[i]);
        } else {
            let i = items.len() - 1;
            assert(each(items[i]) == Ok::<Option<R>, StoreError>(
                Some(gather(items, each)->Ok_0[at]),
            ));
        }
    }
}

} // verus!
