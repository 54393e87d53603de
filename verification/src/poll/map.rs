//! The element-transform adapter for pollable cursors.

use vstd::prelude::*;
use crate::Poll;
use crate::afit::PinnedAsyncIterator;

verus! {

/// Applies a function to every item a pollable cursor yields. `hist` is the
/// history of transformed items handed out, `base` what the underlying
/// cursor had already yielded before it was wrapped.
#[verifier::reject_recursive_types(U)]
pub struct Mapped<Iter: PinnedAsyncIterator, F: Fn(Iter::Item) -> U, U> {
    pub iter: Iter,
    pub f: F,
    pub base: Ghost<Seq<Iter::Item>>,
    pub hist: Ghost<Seq<U>>,
}

impl<Iter: PinnedAsyncIterator, F: Fn(Iter::Item) -> U, U> Mapped<Iter, F, U> {
    /// Every item handed out so far is one of the function's possible
    /// answers on the corresponding item of the underlying cursor, and the
    /// function is willing to take each item the cursor enumerates — no
    /// more is asked of it.
    pub open spec fn wf(&self) -> bool {
        &&& self.iter.inv()
        &&& forall|i: int|
            0 <= i < self.iter.full().len() ==> call_requires(
                self.f,
                (#[trigger] self.iter.full()[i],),
            )
        &&& self.base@.is_prefix_of(self.iter.yielded())
        &&& self.base@.len() + self.hist@.len() == self.iter.yielded().len()
        &&& forall|i: int|
            0 <= i < self.hist@.len() ==> call_ensures(
                self.f,
                (self.iter.yielded()[self.base@.len() + i],),
                #[trigger] self.hist@[i],
            )
    }

    /// One attempt: transforms the cursor's next answer, passing suspension
    /// and exhaustion through untouched.
    pub fn poll_next(&mut self) -> (r: Poll<Option<U>>)
        requires
            old(self).wf(),
        ensures
            final(self).wf(),
            final(self).base@ == old(self).base@,
            (match r {
                Poll::Pending => final(self).hist@ == old(self).hist@,
                Poll::Ready(opt) => match opt {
                    Some(y) => final(self).hist@ == old(self).hist@.push(y),
                    None => final(self).hist@ == old(self).hist@ && final(self).iter.done(),
                },
            }),
    {
        match self.iter.poll_next() {
            Poll::Pending => Poll::Pending,
            Poll::Ready(opt) => {
                match opt {
                    Some(x) => {
                        proof {
                            assert(self.base@ =~= self.iter.yielded().subrange(
                                0,
                                self.base@.len() as int,
                            ));
                            let at = old(self).iter.yielded().len() as int;
                            assert(self.iter.yielded()[at] == x);
                            assert(self.iter.full()[at] == x);
                            assert(call_requires(self.f, (x,)));
                        }
                        let y = (self.f)(x);
                        self.hist = Ghost(self.hist@.push(y));
                        Poll::Ready(Some(y))
                    }
                    None => Poll::Ready(None),
                }
            }
        }
    }
}

/// Wraps a pollable cursor so that every item passes through `f` on its way
/// out. The function must be willing to take each item the cursor
/// enumerates.
pub fn map<Iter: PinnedAsyncIterator, F: Fn(Iter::Item) -> U, U>(iter: Iter, f: F) -> (r: Mapped<
    Iter,
    F,
    U,
>)
    requires
        iter.inv(),
        iter.yielded().is_prefix_of(iter.full()),
        forall|i: int|
            0 <= i < iter.full().len() ==> call_requires(f, (#[trigger] iter.full()[i],)),
    ensures
        r.wf(),
        r.hist@ == Seq::<U>::empty(),
        r.iter == iter,
        r.f == f,
{
    Mapped { iter, f, base: Ghost(iter.yielded()), hist: Ghost(Seq::empty()) }
}

} // verus!
