//! Pull-based merging in the poll formulation: cursors that are advanced by
//! repeated `poll_next` attempts.

use vstd::prelude::*;
use crate::Poll;
use crate::afit::PinnedAsyncIterator;

pub mod map;
pub mod merge;

verus! {

/// A pollable cursor over the elements of a vector: it is always ready and
/// never suspends. `rest` is what is still to come, `past` what has been
/// yielded already.
pub struct VecSource<T> {
    pub rest: Vec<T>,
    pub past: Ghost<Seq<T>>,
    pub fin: bool,
}

impl<T> VecSource<T> {
    pub fn new(items: Vec<T>) -> (r: VecSource<T>)
        ensures
            r.inv(),
            r.yielded() == Seq::<T>::empty(),
            !r.done(),
            r.full() == items@,
    {
        let r = VecSource { rest: items, past: Ghost(Seq::empty()), fin: false };
        proof {
            assert(r.past@ + r.rest@ =~= r.rest@);
        }
        r
    }
}

impl<T> PinnedAsyncIterator for VecSource<T> {
    type Item = T;

    open spec fn inv(&self) -> bool {
        self.fin ==> self.rest@.len() == 0
    }

    open spec fn full(&self) -> Seq<T> {
        self.past@ + self.rest@
    }

    open spec fn yielded(&self) -> Seq<T> {
        self.past@
    }

    open spec fn done(&self) -> bool {
        self.fin
    }

    fn poll_next(&mut self) -> (r: Poll<Option<T>>) {
        if self.rest.len() > 0 {
            let x = self.rest.remove(0);
            self.past = Ghost(self.past@.push(x));
            proof {
                assert(self.past@ + self.rest@ =~= old(self).past@ + old(self).rest@);
                assert(self.past@ =~= (self.past@ + self.rest@).subrange(
                    0,
                    self.past@.len() as int,
                ));
            }
            Poll::Ready(Some(x))
        } else {
            self.fin = true;
            proof {
                assert(self.past@ + self.rest@ =~= self.past@);
                assert(self.past@ =~= (self.past@ + self.rest@).subrange(
                    0,
                    self.past@.len() as int,
                ));
            }
            Poll::Ready(None)
        }
    }
}

/// Convenience on any pollable cursor: drive it until its next answer,
/// within a step budget. A cursor that is already exhausted answers its
/// terminal `None` on any budget that allows one attempt.
pub trait AsyncIteratorExt: PinnedAsyncIterator {
    fn next(&mut self, fuel: usize) -> (r: Poll<Option<Self::Item>>)
        requires
            old(self).inv(),
        ensures
            final(self).inv(),
            final(self).full() == old(self).full(),
            ((fuel >= 1 && old(self).done()) ==> (r matches Poll::Ready(done_opt)
                && done_opt is None)),
            (match r {
                Poll::Pending => final(self).yielded() == old(self).yielded() && final(self).done()
                    == old(self).done(),
                Poll::Ready(opt) => match opt {
                    Some(x) => !old(self).done() && !final(self).done() && final(self).yielded()
                        == old(self).yielded().push(x),
                    None => final(self).done() && final(self).yielded() == old(self).yielded()
                        && final(self).yielded() == final(self).full(),
                },
            }),
    ;
}

impl<T: PinnedAsyncIterator> AsyncIteratorExt for T {
    #[verifier::loop_isolation(false)]
    fn next(&mut self, fuel: usize) -> (r: Poll<Option<Self::Item>>) {
        let mut n: usize = fuel;
        while n > 0
            invariant
                self.inv(),
                self.full() == old(self).full(),
                self.yielded() == old(self).yielded(),
                self.done() == old(self).done(),
                (n < fuel ==> !old(self).done()),
            decreases n,
        {
            n = n - 1;
            match self.poll_next() {
                Poll::Ready(opt) => {
                    return Poll::Ready(opt);
                }
                Poll::Pending => {}
            }
        }
        Poll::Pending
    }
}

} // verus!
