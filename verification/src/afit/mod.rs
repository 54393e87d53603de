use vstd::prelude::*;
use crate::Poll;

pub mod map;
pub mod merge;

verus! {

/// A pull cursor in the run-to-completion style: `next` drives the
/// underlying computation as far as it needs and hands back one item, or
/// `None` once the source is exhausted.
///
/// The model is the history `yielded()` of items handed out so far, together
/// with the flag `done()` that is set by the `None` answer and is final: an
/// exhausted cursor never yields again.
pub trait AsyncIterator {
    type Item;

    spec fn inv(&self) -> bool;

    spec fn yielded(&self) -> Seq<Self::Item>;

    spec fn done(&self) -> bool;

    fn next(&mut self) -> (r: Option<Self::Item>)
        requires
            old(self).inv(),
        ensures
            final(self).inv(),
            (match r {
                Some(x) => !old(self).done() && !final(self).done() && final(self).yielded()
                    == old(self).yielded().push(x),
                None => final(self).done() && final(self).yielded() == old(self).yielded(),
            }),
            (old(self).done() ==> r is None),
    ;

    /// Drains the cursor into a consumer, one item per turn, within a step
    /// budget: everything the cursor yields during the run reaches the
    /// consumer, in order. The run ends with the cursor's exhaustion, with
    /// the consumer's "stop", or with the budget; given any budget at all,
    /// the second component reports exhaustion exactly when the cursor is
    /// exhausted at the end of the run.
    #[verifier::loop_isolation(false)]
    fn for_each<S: crate::push::Sink<Self::Item>>(&mut self, sink: S, fuel: usize) -> (r: (
        S,
        bool,
    ))
        requires
            old(self).inv(),
            sink.inv(),
            !sink.ended(),
            sink.more_now(),
        ensures
            final(self).inv(),
            r.0.inv(),
            r.0.anchor() == sink.anchor(),
            !r.0.ended(),
            old(self).yielded().is_prefix_of(final(self).yielded()),
            r.0.received() == sink.received() + final(self).yielded().skip(
                old(self).yielded().len() as int,
            ),
            (r.1 ==> final(self).done()),
            (fuel >= 1 ==> r.1 == final(self).done()),
    {
        let mut s = sink;
        let mut n: usize = fuel;
        while n > 0
            invariant
                self.inv(),
                s.inv(),
                s.anchor() == sink.anchor(),
                !s.ended(),
                s.more_now(),
                old(self).yielded().is_prefix_of(self.yielded()),
                s.received() == sink.received() + self.yielded().skip(
                    old(self).yielded().len() as int,
                ),
                (n < fuel ==> !self.done()),
            decreases n,
        {
            n = n - 1;
            let ghost yd = self.yielded().skip(old(self).yielded().len() as int);
            match self.next() {
                Some(x) => {
                    proof {
                        assert(self.yielded().skip(old(self).yielded().len() as int) =~= yd.push(
                            x,
                        ));
                        assert((sink.received() + yd).push(x) =~= sink.received() + yd.push(x));
                        assert(old(self).yielded() =~= self.yielded().subrange(
                            0,
                            old(self).yielded().len() as int,
                        ));
                    }
                    let more = s.accept(x);
                    if !more {
                        return (s, false);
                    }
                }
                None => {
                    return (s, true);
                }
            }
        }
        (s, false)
    }
}

/// A pull cursor in the poll style: one `poll_next` attempt either yields
/// the next item, reports exhaustion, or asks to be retried later.
///
/// The complete sequence such a cursor enumerates is fixed in advance,
/// `full()`; `yielded()` is the prefix handed out so far. `done()` is set by
/// the exhaustion answer, is final, and implies that everything in `full()`
/// has been yielded. The timing of `Pending` answers is left entirely open.
pub trait PinnedAsyncIterator {
    type Item;

    spec fn inv(&self) -> bool;

    spec fn full(&self) -> Seq<Self::Item>;

    spec fn yielded(&self) -> Seq<Self::Item>;

    spec fn done(&self) -> bool;

    fn poll_next(&mut self) -> (r: Poll<Option<Self::Item>>)
        requires
            old(self).inv(),
        ensures
            final(self).inv(),
            final(self).full() == old(self).full(),
            final(self).yielded().is_prefix_of(final(self).full()),
            (match r {
                Poll::Pending => final(self).yielded() == old(self).yielded() && final(self).done()
                    == old(self).done(),
                Poll::Ready(opt) => match opt {
                    Some(x) => !old(self).done() && !final(self).done() && final(self).yielded()
                        == old(self).yielded().push(x),
                    None => final(self).done() && final(self).yielded() == old(self).yielded()
                        && final(self).yielded() == final(self).full(),
                },
            }),
            (old(self).done() ==> (r matches Poll::Ready(opt2) && opt2 is None)),
    ;
}

/// A blocking cursor over the elements of a vector: `rest` is what is still
/// to come, `hist` the items already handed out.
pub struct VecIter<T> {
    pub rest: Vec<T>,
    pub hist: Ghost<Seq<T>>,
    pub fin: bool,
}

impl<T> AsyncIterator for VecIter<T> {
    type Item = T;

    open spec fn inv(&self) -> bool {
        self.fin ==> self.rest@.len() == 0
    }

    open spec fn yielded(&self) -> Seq<T> {
        self.hist@
    }

    open spec fn done(&self) -> bool {
        self.fin
    }

    fn next(&mut self) -> (r: Option<T>) {
        if self.rest.len() > 0 {
            let x = self.rest.remove(0);
            self.hist = Ghost(self.hist@.push(x));
            Some(x)
        } else {
            self.fin = true;
            None
        }
    }
}

/// Wraps a fully materialised sequence as a blocking pull cursor.
pub fn async_iter_from_iter<T>(items: Vec<T>) -> (r: VecIter<T>)
    ensures
        r.inv(),
        r.yielded() == Seq::<T>::empty(),
        !r.done(),
        r.rest@ == items@,
{
    VecIter { rest: items, hist: Ghost(Seq::empty()), fin: false }
}

} // verus!
