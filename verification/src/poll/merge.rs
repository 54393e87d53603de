//! The merge of two pollable cursors, in the poll formulation.
//!
//! Each attempt examines the side named by the freshly flipped alternation
//! bit first, so that a faster source cannot permanently crowd the other
//! out. A side that reports exhaustion is fused by a flag and never polled
//! again; the merge itself is exhausted once both sides are.

use vstd::prelude::*;
use crate::{lefts, lemma_lefts_push, rights, Either, Poll};
use crate::afit::PinnedAsyncIterator;

verus! {

/// The merged cursor. `hist` is the tagged output delivered so far;
/// `abase` and `bbase` record what each source had already yielded before
/// the merge began.
pub struct Merge<A: PinnedAsyncIterator, B: PinnedAsyncIterator> {
    pub a: A,
    pub b: B,
    pub a_done: bool,
    pub b_done: bool,
    pub parity: bool,
    pub hist: Ghost<Seq<Either<A::Item, B::Item>>>,
    pub abase: Ghost<Seq<A::Item>>,
    pub bbase: Ghost<Seq<B::Item>>,
}

impl<A: PinnedAsyncIterator, B: PinnedAsyncIterator> Merge<A, B> {
    /// The merged output so far interleaves the two sources' yields
    /// faithfully: each side's projection of the output is exactly what that
    /// source has yielded since the merge began, in source order.
    pub open spec fn wf(&self) -> bool {
        &&& self.a.inv()
        &&& self.b.inv()
        &&& self.a.yielded().is_prefix_of(self.a.full())
        &&& self.b.yielded().is_prefix_of(self.b.full())
        &&& (self.a.done() ==> self.a.yielded() == self.a.full())
        &&& (self.b.done() ==> self.b.yielded() == self.b.full())
        &&& self.a.yielded() == self.abase@ + lefts(self.hist@)
        &&& self.b.yielded() == self.bbase@ + rights(self.hist@)
        &&& (self.a_done ==> self.a.done())
        &&& (self.b_done ==> self.b.done())
    }

    /// One merge attempt. The freshly flipped alternation bit names the side
    /// examined first; if that side is exhausted the other is consulted, and
    /// a suspended first side suspends the whole attempt. A side marked
    /// exhausted is never driven again, and its flag is never cleared.
    /// Exhaustion of both sides is the merge's own exhaustion, reported at
    /// once and forever after; everything both sources had has then been
    /// delivered.
    pub fn poll_next(&mut self) -> (r: Poll<Option<Either<A::Item, B::Item>>>)
        requires
            old(self).wf(),
        ensures
            final(self).wf(),
            final(self).abase@ == old(self).abase@,
            final(self).bbase@ == old(self).bbase@,
            final(self).a.full() == old(self).a.full(),
            final(self).b.full() == old(self).b.full(),
            final(self).parity == !old(self).parity,
            (old(self).a_done ==> final(self).a_done && final(self).a == old(self).a),
            (old(self).b_done ==> final(self).b_done && final(self).b == old(self).b),
            ((old(self).a_done && old(self).b_done) ==> (r matches Poll::Ready(done_opt)
                && done_opt is None)),
            (match r {
                Poll::Pending => final(self).hist@ == old(self).hist@,
                Poll::Ready(opt) => match opt {
                    Some(e) => final(self).hist@ == old(self).hist@.push(e),
                    None => final(self).hist@ == old(self).hist@ && final(self).a_done
                        && final(self).b_done && final(self).a.done()
                        && final(self).b.done()
                        && final(self).a.yielded() == final(self).a.full()
                        && final(self).b.yielded() == final(self).b.full(),
                },
            }),
    {
        self.parity = !self.parity;
        if self.parity {
            // examine a first, then b only if a is exhausted
            let ra: Poll<Option<A::Item>> = if self.a_done {
                Poll::Ready(None)
            } else {
                self.a.poll_next()
            };
            match ra {
                Poll::Ready(Some(x)) => {
                    proof {
                        lemma_lefts_push(self.hist@, Either::Left(x));
                    }
                    self.hist = Ghost(self.hist@.push(Either::Left(x)));
                    Poll::Ready(Some(Either::Left(x)))
                }
                Poll::Ready(None) => {
                    self.a_done = true;
                    let rb: Poll<Option<B::Item>> = if self.b_done {
                        Poll::Ready(None)
                    } else {
                        self.b.poll_next()
                    };
                    match rb {
                        Poll::Ready(Some(y)) => {
                            proof {
                                lemma_lefts_push(self.hist@, Either::Right(y));
                            }
                            self.hist = Ghost(self.hist@.push(Either::Right(y)));
                            Poll::Ready(Some(Either::Right(y)))
                        }
                        Poll::Ready(None) => {
                            self.b_done = true;
                            Poll::Ready(None)
                        }
                        Poll::Pending => Poll::Pending,
                    }
                }
                Poll::Pending => Poll::Pending,
            }
        } else {
            // examine b first, then a only if b is exhausted
            let rb: Poll<Option<B::Item>> = if self.b_done {
                Poll::Ready(None)
            } else {
                self.b.poll_next()
            };
            match rb {
                Poll::Ready(Some(y)) => {
                    proof {
                        lemma_lefts_push(self.hist@, Either::Right(y));
                    }
                    self.hist = Ghost(self.hist@.push(Either::Right(y)));
                    Poll::Ready(Some(Either::Right(y)))
                }
                Poll::Ready(None) => {
                    self.b_done = true;
                    let ra: Poll<Option<A::Item>> = if self.a_done {
                        Poll::Ready(None)
                    } else {
                        self.a.poll_next()
                    };
                    match ra {
                        Poll::Ready(Some(x)) => {
                            proof {
                                lemma_lefts_push(self.hist@, Either::Left(x));
                            }
                            self.hist = Ghost(self.hist@.push(Either::Left(x)));
                            Poll::Ready(Some(Either::Left(x)))
                        }
                        Poll::Ready(None) => {
                            self.a_done = true;
                            Poll::Ready(None)
                        }
                        Poll::Pending => Poll::Pending,
                    }
                }
                Poll::Pending => Poll::Pending,
            }
        }
    }
}

/// Exhaustion is total: once a merged cursor reports that both sides are
/// done, its output holds every item either source had to yield since the
/// merge began — one per source item, each side in source order.
pub proof fn lemma_exhausted_merge_is_complete<A: PinnedAsyncIterator, B: PinnedAsyncIterator>(
    m: Merge<A, B>,
)
    requires
        m.wf(),
        m.a.yielded() == m.a.full(),
        m.b.yielded() == m.b.full(),
    ensures
        lefts(m.hist@) == m.a.full().skip(m.abase@.len() as int),
        rights(m.hist@) == m.b.full().skip(m.bbase@.len() as int),
        m.hist@.len() + m.abase@.len() + m.bbase@.len() == m.a.full().len() + m.b.full().len(),
{
    assert(lefts(m.hist@) =~= m.a.full().skip(m.abase@.len() as int));
    assert(rights(m.hist@) =~= m.b.full().skip(m.bbase@.len() as int));
    crate::lemma_projection_lengths(m.hist@);
}

/// Merges two pollable cursors into one cursor of tagged items. Both
/// exhaustion flags start clear, and the alternation bit starts so that the
/// first attempt, which flips it before use, examines side `a` first.
pub fn merge<A: PinnedAsyncIterator, B: PinnedAsyncIterator>(a: A, b: B) -> (r: Merge<A, B>)
    requires
        a.inv(),
        b.inv(),
        a.yielded().is_prefix_of(a.full()),
        b.yielded().is_prefix_of(b.full()),
        (a.done() ==> a.yielded() == a.full()),
        (b.done() ==> b.yielded() == b.full()),
    ensures
        r.wf(),
        r.hist@ == Seq::<Either<A::Item, B::Item>>::empty(),
        r.abase@ == a.yielded(),
        r.bbase@ == b.yielded(),
        r.a == a,
        r.b == b,
        !r.a_done,
        !r.b_done,
        r.parity == false,
{
    let r = Merge {
        abase: Ghost(a.yielded()),
        bbase: Ghost(b.yielded()),
        a,
        b,
        a_done: false,
        b_done: false,
        parity: false,
        hist: Ghost(Seq::empty()),
    };
    proof {
        assert(r.abase@ + lefts(r.hist@) =~= r.a.yielded());
        assert(r.bbase@ + rights(r.hist@) =~= r.b.yielded());
    }
    r
}

} // verus!
