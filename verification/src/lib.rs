//! A small cooperative-concurrency toolkit: single-slot handshake channels,
//! a fairness-preserving two-way race, a round-robin join scheduler, and a
//! merge operator that combines two independently progressing item sources
//! into one consumer-visible sequence.
//!
//! Everything runs on one logical thread: "concurrency" means interleaved
//! suspension points driven by an outer polling loop. A suspended operation
//! is an explicit state machine that reports `Pending` until it can finish.

use vstd::prelude::*;

pub mod afit;
pub mod future_combinators;
pub mod poll;
pub mod push;

verus! {

/// A value tagged with which of two places it came from.
#[derive(PartialEq, Eq, Debug)]
pub enum Either<A, B> {
    Left(A),
    Right(B),
}

/// The outcome of advancing a suspendable operation by one step:
/// either it finished with a value, or it must be tried again later.
#[derive(PartialEq, Eq, Debug)]
pub enum Poll<T> {
    Ready(T),
    Pending,
}

/// The `Left`-tagged values of `s`, in order.
pub open spec fn lefts<A, B>(s: Seq<Either<A, B>>) -> Seq<A>
    decreases s.len(),
{
    if s.len() == 0 {
        Seq::empty()
    } else {
        lefts(s.drop_last()) + match s.last() {
            Either::Left(x) => seq![x],
            Either::Right(_) => seq![],
        }
    }
}

/// The `Right`-tagged values of `s`, in order.
pub open spec fn rights<A, B>(s: Seq<Either<A, B>>) -> Seq<B>
    decreases s.len(),
{
    if s.len() == 0 {
        Seq::empty()
    } else {
        rights(s.drop_last()) + match s.last() {
            Either::Left(_) => seq![],
            Either::Right(y) => seq![y],
        }
    }
}

pub proof fn lemma_lefts_push<A, B>(s: Seq<Either<A, B>>, e: Either<A, B>)
    ensures
        lefts(s.push(e)) == (match e {
            Either::Left(x) => lefts(s).push(x),
            Either::Right(_) => lefts(s),
        }),
        rights(s.push(e)) == (match e {
            Either::Left(_) => rights(s),
            Either::Right(y) => rights(s).push(y),
        }),
{
    let t = s.push(e);
    assert(t.drop_last() =~= s);
    assert(t.last() == e);
    match e {
        Either::Left(x) => {
            assert(lefts(t) =~= lefts(s).push(x));
            assert(rights(t) =~= rights(s));
        }
        Either::Right(y) => {
            assert(lefts(t) =~= lefts(s));
            assert(rights(t) =~= rights(s).push(y));
        }
    }
}

/// Every element of a tagged sequence is counted exactly once by its side:
/// the two projections together account for the whole length.
pub proof fn lemma_projection_lengths<A, B>(s: Seq<Either<A, B>>)
    ensures
        s.len() == lefts(s).len() + rights(s).len(),
    decreases s.len(),
{
    if s.len() > 0 {
        lemma_projection_lengths(s.drop_last());
    }
}

/// The position in `s` of the k-th left-tagged element.
pub open spec fn left_pos<A, B>(s: Seq<Either<A, B>>, k: int) -> int
    decreases s.len(),
{
    if s.len() == 0 {
        0
    } else if k < lefts(s.drop_last()).len() {
        left_pos(s.drop_last(), k)
    } else {
        s.len() - 1
    }
}

/// The position in `s` of the k-th right-tagged element.
pub open spec fn right_pos<A, B>(s: Seq<Either<A, B>>, k: int) -> int
    decreases s.len(),
{
    if s.len() == 0 {
        0
    } else if k < rights(s.drop_last()).len() {
        right_pos(s.drop_last(), k)
    } else {
        s.len() - 1
    }
}

pub proof fn lemma_left_pos<A, B>(s: Seq<Either<A, B>>, k: int)
    requires
        0 <= k < lefts(s).len(),
    ensures
        0 <= left_pos(s, k) < s.len(),
        s[left_pos(s, k)] == Either::<A, B>::Left(lefts(s)[k]),
        forall|j: int| 0 <= j < k ==> #[trigger] left_pos(s, j) < left_pos(s, k),
    decreases s.len(),
{
    let t = s.drop_last();
    if k < lefts(t).len() {
        lemma_left_pos(t, k);
        assert forall|j: int| 0 <= j < k implies #[trigger] left_pos(s, j) < left_pos(s, k) by {
            assert(left_pos(s, j) == left_pos(t, j));
        }
    } else {
        match s.last() {
            Either::Left(x) => {
                assert(lefts(s) == lefts(t) + seq![x]);
                assert forall|j: int| 0 <= j < k implies #[trigger] left_pos(s, j) < left_pos(
                    s,
                    k,
                ) by {
                    lemma_left_pos(t, j);
                    assert(left_pos(s, j) == left_pos(t, j));
                }
            }
            Either::Right(_) => {
                assert(lefts(s) == lefts(t));
            }
        }
    }
}

pub proof fn lemma_right_pos<A, B>(s: Seq<Either<A, B>>, k: int)
    requires
        0 <= k < rights(s).len(),
    ensures
        0 <= right_pos(s, k) < s.len(),
        s[right_pos(s, k)] == Either::<A, B>::Right(rights(s)[k]),
        forall|j: int| 0 <= j < k ==> #[trigger] right_pos(s, j) < right_pos(s, k),
    decreases s.len(),
{
    let t = s.drop_last();
    if k < rights(t).len() {
        lemma_right_pos(t, k);
        assert forall|j: int| 0 <= j < k implies #[trigger] right_pos(s, j) < right_pos(s, k) by {
            assert(right_pos(s, j) == right_pos(t, j));
        }
    } else {
        match s.last() {
            Either::Right(y) => {
                assert(rights(s) == rights(t) + seq![y]);
                assert forall|j: int| 0 <= j < k implies #[trigger] right_pos(s, j) < right_pos(
                    s,
                    k,
                ) by {
                    lemma_right_pos(t, j);
                    assert(right_pos(s, j) == right_pos(t, j));
                }
            }
            Either::Left(_) => {
                assert(rights(s) == rights(t));
            }
        }
    }
}

/// Per-source order preservation: in any tagged sequence, a side's i-th item
/// stands at an earlier position than its j-th whenever i < j — the
/// projections `lefts` and `rights` list each side's items in sequence
/// order. Together with a merge's promise that each projection is a prefix
/// of its source, this is the guarantee that no source's items are ever
/// reordered.
pub proof fn lemma_per_source_order<A, B>(s: Seq<Either<A, B>>, i: int, j: int)
    requires
        0 <= i < j,
    ensures
        j < lefts(s).len() ==> left_pos(s, i) < left_pos(s, j) && s[left_pos(s, i)]
            == Either::<A, B>::Left(lefts(s)[i]) && s[left_pos(s, j)] == Either::<A, B>::Left(
            lefts(s)[j],
        ),
        j < rights(s).len() ==> right_pos(s, i) < right_pos(s, j) && s[right_pos(s, i)]
            == Either::<A, B>::Right(rights(s)[i]) && s[right_pos(s, j)] == Either::<A, B>::Right(
            rights(s)[j],
        ),
{
    if j < lefts(s).len() {
        lemma_left_pos(s, i);
        lemma_left_pos(s, j);
    }
    if j < rights(s).len() {
        lemma_right_pos(s, i);
        lemma_right_pos(s, j);
    }
}

/// One independently suspendable unit of cooperative execution.
///
/// A task shares an explicit context value `C` with every other task that the
/// same driver runs; all cross-task communication goes through that context.
/// `inv` is the task's own well-formedness, kept across suspensions, and
/// `done_with` says what its final value means about the context it left
/// behind.
pub trait Task<C> {
    type Output;

    spec fn inv(&self) -> bool;

    spec fn done_with(&self, ctx: &C, out: &Self::Output) -> bool;

    fn poll(&mut self, ctx: &mut C) -> (r: Poll<Self::Output>)
        requires
            old(self).inv(),
        ensures
            final(self).inv(),
            (r matches Poll::Ready(v) ==> final(self).done_with(&*final(ctx), &v)),
    ;
}

/// Repeatedly advances one task until it yields its final value or the step
/// budget runs out: the minimal busy-polling driver. Waking is a no-op here;
/// every suspension is simply retried on the next turn of the loop.
pub fn block_on<C, T: Task<C>>(t: &mut T, ctx: &mut C, fuel: usize) -> (out: Poll<T::Output>)
    requires
        old(t).inv(),
    ensures
        final(t).inv(),
        (out matches Poll::Ready(v) ==> final(t).done_with(&*final(ctx), &v)),
{
    let mut n: usize = fuel;
    while n > 0
        invariant
            t.inv(),
        decreases n,
    {
        n = n - 1;
        match t.poll(ctx) {
            Poll::Ready(v) => {
                return Poll::Ready(v);
            }
            Poll::Pending => {}
        }
    }
    Poll::Pending
}

} // verus!
