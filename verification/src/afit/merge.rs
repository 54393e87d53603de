//! The merge of two blocking pull cursors.
//!
//! Each side keeps a tiny state: still yielding, or complete. One `next`
//! call flips the alternation bit and races the two sides in the order the
//! bit names: the first side examined answers at once (a blocking cursor
//! never suspends), and only if it reports exhaustion is the other side
//! consulted. A complete side is never asked again.

use vstd::prelude::*;
use crate::{lefts, lemma_lefts_push, rights, Either};
use super::AsyncIterator;

verus! {

/// Where one side of the merge stands: still to be polled again, or
/// complete after reporting exhaustion.
#[derive(Clone, Copy, PartialEq, Eq, Structural, Debug)]
pub enum PollState {
    Yielded,
    Complete,
}

/// The merged cursor. `hist` is the tagged output so far; `abase` and
/// `bbase` record what each source had yielded before the merge began.
pub struct Merge<A: AsyncIterator, B: AsyncIterator> {
    pub a: A,
    pub b: B,
    pub a_state: PollState,
    pub b_state: PollState,
    pub parity: bool,
    pub hist: Ghost<Seq<Either<A::Item, B::Item>>>,
    pub abase: Ghost<Seq<A::Item>>,
    pub bbase: Ghost<Seq<B::Item>>,
}

impl<A: AsyncIterator, B: AsyncIterator> Merge<A, B> {
    /// The merged output so far interleaves the two sources' yields: each
    /// side's projection of the output is exactly what that source has
    /// yielded since the merge began, in source order.
    pub open spec fn wf(&self) -> bool {
        &&& self.a.inv()
        &&& self.b.inv()
        &&& self.a.yielded() == self.abase@ + lefts(self.hist@)
        &&& self.b.yielded() == self.bbase@ + rights(self.hist@)
        &&& (self.a_state == PollState::Complete ==> self.a.done())
        &&& (self.b_state == PollState::Complete ==> self.b.done())
    }

    /// One item of the merge, or `None` once both sides are exhausted. The
    /// alternation bit flips on every call, a complete side is never driven
    /// again, and a merge whose two sides are already complete answers
    /// `None` at once and forever after.
    pub fn next(&mut self) -> (r: Option<Either<A::Item, B::Item>>)
        requires
            old(self).wf(),
        ensures
            final(self).wf(),
            final(self).abase@ == old(self).abase@,
            final(self).bbase@ == old(self).bbase@,
            final(self).parity == !old(self).parity,
            (old(self).a_state == PollState::Complete ==> final(self).a_state
                == PollState::Complete && final(self).a == old(self).a),
            (old(self).b_state == PollState::Complete ==> final(self).b_state
                == PollState::Complete && final(self).b == old(self).b),
            ((old(self).a_state == PollState::Complete && old(self).b_state
                == PollState::Complete) ==> r is None),
            (match r {
                Some(e) => final(self).hist@ == old(self).hist@.push(e),
                None => final(self).hist@ == old(self).hist@ && final(self).a_state
                    == PollState::Complete && final(self).b_state == PollState::Complete
                    && final(self).a.done() && final(self).b.done(),
            }),
    {
        self.parity = !self.parity;
        if self.parity {
            let ra: Option<A::Item> = if self.a_state == PollState::Complete {
                None
            } else {
                self.a.next()
            };
            match ra {
                Some(x) => {
                    proof {
                        lemma_lefts_push(self.hist@, Either::Left(x));
                    }
                    self.hist = Ghost(self.hist@.push(Either::Left(x)));
                    Some(Either::Left(x))
                }
                None => {
                    self.a_state = PollState::Complete;
                    let rb: Option<B::Item> = if self.b_state == PollState::Complete {
                        None
                    } else {
                        self.b.next()
                    };
                    match rb {
                        Some(y) => {
                            proof {
                                lemma_lefts_push(self.hist@, Either::Right(y));
                            }
                            self.hist = Ghost(self.hist@.push(Either::Right(y)));
                            Some(Either::Right(y))
                        }
                        None => {
                            self.b_state = PollState::Complete;
                            None
                        }
                    }
                }
            }
        } else {
            let rb: Option<B::Item> = if self.b_state == PollState::Complete {
                None
            } else {
                self.b.next()
            };
            match rb {
                Some(y) => {
                    proof {
                        lemma_lefts_push(self.hist@, Either::Right(y));
                    }
                    self.hist = Ghost(self.hist@.push(Either::Right(y)));
                    Some(Either::Right(y))
                }
                None => {
                    self.b_state = PollState::Complete;
                    let ra: Option<A::Item> = if self.a_state == PollState::Complete {
                        None
                    } else {
                        self.a.next()
                    };
                    match ra {
                        Some(x) => {
                            proof {
                                lemma_lefts_push(self.hist@, Either::Left(x));
                            }
                            self.hist = Ghost(self.hist@.push(Either::Left(x)));
                            Some(Either::Left(x))
                        }
                        None => {
                            self.a_state = PollState::Complete;
                            None
                        }
                    }
                }
            }
        }
    }
}

/// Merges two blocking cursors into one cursor of tagged items. Both sides
/// start still-yielding, and the alternation bit starts so that the first
/// call, which flips it before use, examines side `a` first.
pub fn merge<A: AsyncIterator, B: AsyncIterator>(a: A, b: B) -> (r: Merge<A, B>)
    requires
        a.inv(),
        b.inv(),
    ensures
        r.wf(),
        r.hist@ == Seq::<Either<A::Item, B::Item>>::empty(),
        r.abase@ == a.yielded(),
        r.bbase@ == b.yielded(),
        r.a == a,
        r.b == b,
        r.a_state == PollState::Yielded,
        r.b_state == PollState::Yielded,
        r.parity == false,
{
    let r = Merge {
        abase: Ghost(a.yielded()),
        bbase: Ghost(b.yielded()),
        a,
        b,
        a_state: PollState::Yielded,
        b_state: PollState::Yielded,
        parity: false,
        hist: Ghost(Seq::empty()),
    };
    proof {
        assert(r.abase@ + lefts(r.hist@) =~= r.a.yielded());
        assert(r.bbase@ + rights(r.hist@) =~= r.b.yielded());
    }
    r
}

} // verus!
