//! The merge operator for push-driven streams.
//!
//! Each source is wrapped in a producer task that pulls items from it and
//! puts them, one at a time, into its own single-slot handshake channel,
//! closing with one end marker. A root task races the two channels' take
//! operations — alternating which channel is examined first, so that neither
//! side can be starved while both keep delivering — forwards each item to the
//! downstream consumer tagged with its side, and tracks per-source
//! exhaustion. A round-robin driver gives the three tasks one turn each.

use vstd::prelude::*;
use crate::{lefts, rights, lemma_lefts_push, Either, Poll};
use crate::afit::PinnedAsyncIterator;
use crate::future_combinators::race_pick;
use super::{verdict_run, ExecStatus, Sink, Stream};

verus! {

/// The single-slot rendezvous channel shared by one producer task and the
/// root task: at most one in-flight item, plus the identity of the most
/// recent task that blocked on the slot. Re-scheduling of a cleared waiter
/// is the outer driver's business; with the busy-polling round-robin driver
/// used here, a wake is a no-op.
pub struct OnePipeInner<T> {
    pub item: Option<T>,
    pub waker: Option<usize>,
}

impl<T> OnePipeInner<T> {
    /// An empty slot with no recorded waiter.
    pub fn new() -> (r: Self)
        ensures
            r.item is None,
            r.waker is None,
    {
        OnePipeInner { item: None, waker: None }
    }

    /// One attempt by the producer side to store `item`. While the slot is
    /// full the item comes back to the caller, who is recorded as the slot's
    /// waiter and must retry after the consumer drains it; when the slot is
    /// empty the item is stored and any waiter of the opposite role is
    /// cleared for re-scheduling.
    pub fn put(&mut self, item: T, me: usize) -> (r: Option<T>)
        ensures
            (match old(self).item {
                Some(_) => r == Some(item) && final(self).item == old(self).item && final(self).waker
                    == Some(me),
                None => r is None && final(self).item == Some(item) && final(self).waker is None,
            }),
    {
        if self.item.is_some() {
            self.waker = Some(me);
            Some(item)
        } else {
            self.item = Some(item);
            self.waker = None;
            None
        }
    }

    /// One attempt by the consumer side to take the stored item. While the
    /// slot is empty the caller is recorded as the slot's waiter; when it is
    /// full the item is removed and any waiter of the opposite role is
    /// cleared for re-scheduling.
    pub fn get(&mut self, me: usize) -> (r: Poll<T>)
        ensures
            (match old(self).item {
                Some(x) => r == Poll::Ready(x) && final(self).item is None && final(self).waker
                    is None,
                None => r is Pending && final(self).item is None && final(self).waker == Some(me),
            }),
    {
        match self.item.take() {
            Some(x) => {
                self.waker = None;
                Poll::Ready(x)
            }
            None => {
                self.waker = Some(me);
                Poll::Pending
            }
        }
    }
}

/// The items sitting in a slot that carries `Some(item)` values and uses
/// `None` as the end marker: a marker counts as no item.
pub open spec fn slot_items<T>(slot: Option<Option<T>>) -> Seq<T> {
    match slot {
        Some(Some(x)) => seq![x],
        _ => seq![],
    }
}

/// The producer task for one side of a merge: it pulls items from its
/// source and puts each into its dedicated channel, finally putting one end
/// marker (`None`) and resting.
pub struct Producer<S: PinnedAsyncIterator> {
    pub src: S,
    pub hold: Option<Option<S::Item>>,
    pub fin: bool,
}

impl<S: PinnedAsyncIterator> Producer<S> {
    pub open spec fn wf(&self) -> bool {
        &&& self.src.inv()
        &&& self.src.yielded().is_prefix_of(self.src.full())
        &&& (self.src.done() ==> self.src.yielded() == self.src.full())
        &&& (self.fin ==> self.hold is None && self.src.done())
        &&& ((self.hold matches Some(m) && m is None) ==> self.src.done())
    }
}

/// The items of one side that are on their way but not yet with the
/// consumer: first whatever sits in the channel slot, then whatever the
/// producer holds in hand.
pub open spec fn in_flight<S: PinnedAsyncIterator>(
    p: Producer<S>,
    pipe: OnePipeInner<Option<S::Item>>,
) -> Seq<S::Item> {
    slot_items(pipe.item) + slot_items(p.hold)
}

/// Conservation for one side of a running merge: every item the source has
/// yielded beyond its history `base` is either already delivered (`got`) or
/// still in flight, in that order, and an end marker can be in the channel
/// only once the producer has rested.
pub open spec fn side_ok<S: PinnedAsyncIterator>(
    p: Producer<S>,
    pipe: OnePipeInner<Option<S::Item>>,
    got: Seq<S::Item>,
    base: Seq<S::Item>,
) -> bool {
    &&& p.wf()
    &&& p.src.yielded() == base + got + in_flight(p, pipe)
    &&& ((pipe.item matches Some(m) && m is None) ==> p.fin)
}

/// One scheduler turn for a producer task: either try to put what it holds
/// into its channel, or pull the next item or end marker from its source. A
/// rested producer does nothing. What has already been delivered is never
/// touched, and the source's fixed sequence never changes.
fn tick<S: PinnedAsyncIterator>(
    p: &mut Producer<S>,
    pipe: &mut OnePipeInner<Option<S::Item>>,
    me: usize,
    Ghost(got): Ghost<Seq<S::Item>>,
    Ghost(base): Ghost<Seq<S::Item>>,
)
    requires
        side_ok(*old(p), *old(pipe), got, base),
    ensures
        side_ok(*final(p), *final(pipe), got, base),
        final(p).src.full() == old(p).src.full(),
        (old(p).fin ==> final(p).fin && final(pipe).item == old(pipe).item),
        (final(p).fin ==> old(p).fin || old(pipe).item is None),
{
    if p.fin {
        return ;
    }
    let held = p.hold.take();
    match held {
        Some(v) => {
            let is_marker = v.is_none();
            match pipe.put(v, me) {
                Some(back) => {
                    p.hold = Some(back);
                }
                None => {
                    if is_marker {
                        p.fin = true;
                    }
                    proof {
                        assert(in_flight(*p, *pipe) =~= slot_items(old(pipe).item) + slot_items(
                            old(p).hold,
                        ));
                    }
                }
            }
        }
        None => {
            match p.src.poll_next() {
                Poll::Pending => {}
                Poll::Ready(opt) => {
                    proof {
                        if opt is Some {
                            assert((base + got + in_flight(*old(p), *old(pipe))).push(
                                opt->Some_0,
                            ) =~= base + got + (slot_items(old(pipe).item) + seq![opt->Some_0]));
                        }
                    }
                    p.hold = Some(opt);
                }
            }
        }
    }
}

/// Conservation on one side, read off at an exit of the merge: what was
/// delivered from a side is a prefix of what its source still had to come.
proof fn lemma_chain_prefix<T>(base: Seq<T>, mid: Seq<T>, tail: Seq<T>, f: Seq<T>)
    requires
        (base + mid + tail).is_prefix_of(f),
    ensures
        mid.is_prefix_of(f.skip(base.len() as int)),
{
    let whole = base + mid + tail;
    assert(mid =~= f.skip(base.len() as int).subrange(0, mid.len() as int)) by {
        assert forall|i: int| 0 <= i < mid.len() implies mid[i] == f.skip(base.len() as int)[i] by {
            assert(whole[base.len() + i] == mid[i]);
            assert(whole[base.len() + i] == f[base.len() + i]);
        }
    }
}

/// No item loss: when a merged run delivers each source completely — as a
/// `Done` run promises — the output holds exactly one item per source item,
/// so its length is the two sources' lengths together, each element present
/// exactly once under its own tag.
pub proof fn lemma_no_item_loss<A, B>(out: Seq<Either<A, B>>, rest_a: Seq<A>, rest_b: Seq<B>)
    requires
        lefts(out) == rest_a,
        rights(out) == rest_b,
    ensures
        out.len() == rest_a.len() + rest_b.len(),
{
    crate::lemma_projection_lengths(out);
}

/// The merge of two pollable sources into one push stream of tagged items.
pub struct Merge<A, B> {
    pub a: A,
    pub b: B,
}

impl<A: PinnedAsyncIterator, B: PinnedAsyncIterator> Merge<A, B> {
    pub fn new(a: A, b: B) -> (r: Self)
        ensures
            r.a == a,
            r.b == b,
    {
        Merge { a, b }
    }
}

impl<A: PinnedAsyncIterator, B: PinnedAsyncIterator> Stream for Merge<A, B> {
    type Item = Either<A::Item, B::Item>;

    open spec fn inv(&self) -> bool {
        &&& self.a.inv()
        &&& self.a.yielded().is_prefix_of(self.a.full())
        &&& (self.a.done() ==> self.a.yielded() == self.a.full())
        &&& self.b.inv()
        &&& self.b.yielded().is_prefix_of(self.b.full())
        &&& (self.b.done() ==> self.b.yielded() == self.b.full())
    }

    /// What one run of the merge delivers: the left-tagged items of the
    /// output are a prefix of what source `a` still had to yield, in source
    /// order, and likewise on the right — no item is reordered within its
    /// side, and nothing appears after its source's exhaustion. A run that
    /// ends with `Done` has delivered both sources completely.
    open spec fn exec_ens(
        &self,
        pre: Seq<Either<A::Item, B::Item>>,
        post: Seq<Either<A::Item, B::Item>>,
        status: ExecStatus,
    ) -> bool {
        let out = post.skip(pre.len() as int);
        let rest_a = self.a.full().skip(self.a.yielded().len() as int);
        let rest_b = self.b.full().skip(self.b.yielded().len() as int);
        &&& lefts(out).is_prefix_of(rest_a)
        &&& rights(out).is_prefix_of(rest_b)
        &&& (status == ExecStatus::Done ==> lefts(out) == rest_a && rights(out) == rest_b)
    }

    #[verifier::loop_isolation(false)]
    fn exec<S: Sink<Either<A::Item, B::Item>>>(self, sink: S, fuel: usize) -> (r: (S, ExecStatus)) {
        let Merge { a, b } = self;
        let ghost abase = a.yielded();
        let ghost bbase = b.yielded();
        let ghost pre = sink.received();
        let ghost vpre = sink.verdicts();
        let mut pa: OnePipeInner<Option<A::Item>> = OnePipeInner::new();
        let mut pb: OnePipeInner<Option<B::Item>> = OnePipeInner::new();
        let mut prod_a = Producer { src: a, hold: None, fin: false };
        let mut prod_b = Producer { src: b, hold: None, fin: false };
        let mut s = sink;
        let mut a_done = false;
        let mut b_done = false;
        let mut parity = false;
        // whose turn it is: 1 and 2 are the producers, 0 the root task
        let mut pos: usize = 1;
        let mut n: usize = fuel;
        proof {
            assert(s.received().skip(pre.len() as int) =~= Seq::<Either<A::Item, B::Item>>::empty());
            assert(abase + lefts(s.received().skip(pre.len() as int)) + in_flight(prod_a, pa)
                =~= abase);
            assert(bbase + rights(s.received().skip(pre.len() as int)) + in_flight(prod_b, pb)
                =~= bbase);
            assert(verdict_run(0, false) =~= Seq::<bool>::empty());
        }
        while n > 0
            invariant
                pos < 3,
                s.inv(),
                s.anchor() == sink.anchor(),
                !s.ended(),
                s.more_now(),
                pre.is_prefix_of(s.received()),
                s.verdicts() == vpre + verdict_run((s.received().len() - pre.len()) as nat, false),
                side_ok(prod_a, pa, lefts(s.received().skip(pre.len() as int)), abase),
                side_ok(prod_b, pb, rights(s.received().skip(pre.len() as int)), bbase),
                prod_a.src.full() == a.full(),
                prod_b.src.full() == b.full(),
                (a_done ==> prod_a.fin && pa.item is None),
                (b_done ==> prod_b.fin && pb.item is None),
            decreases n,
        {
            n = n - 1;
            let ghost out = s.received().skip(pre.len() as int);
            proof {
                assert(s.received() =~= pre + out);
            }
            if pos == 0 {
                // the root task's turn: one step of the merge loop
                if a_done && b_done {
                    s.end();
                    proof {
                        assert(prod_a.src.yielded() =~= abase + lefts(out));
                        assert(prod_b.src.yielded() =~= bbase + rights(out));
                        assert(lefts(out) =~= a.full().skip(abase.len() as int));
                        assert(rights(out) =~= b.full().skip(bbase.len() as int));
                    }
                    return (s, ExecStatus::Done);
                }
                // what this turn took out of a channel, if anything
                let mut taken: Option<Either<Option<A::Item>, Option<B::Item>>> = None;
                if !a_done && !b_done {
                    // race the two channels' take operations, examining the
                    // side named by the fresh alternation bit first; the
                    // other side is consulted only if that one is not ready
                    parity = !parity;
                    // the asserts below pin each outcome of this attempt to
                    // the fair-choice function over the two slots' readiness
                    let ghost pick = race_pick(parity, pa.item is Some, pb.item is Some);
                    if parity {
                        match pa.get(0) {
                            Poll::Ready(opt) => {
                                taken = Some(Either::Left(opt));
                                proof {
                                    assert(pick == Some(true));
                                }
                            }
                            Poll::Pending => {
                                match pb.get(0) {
                                    Poll::Ready(opt) => {
                                        taken = Some(Either::Right(opt));
                                        proof {
                                            assert(pick == Some(false));
                                        }
                                    }
                                    Poll::Pending => {
                                        proof {
                                            assert(pick is None);
                                        }
                                    }
                                }
                            }
                        }
                    } else {
                        match pb.get(0) {
                            Poll::Ready(opt) => {
                                taken = Some(Either::Right(opt));
                                proof {
                                    assert(pick == Some(false));
                                }
                            }
                            Poll::Pending => {
                                match pa.get(0) {
                                    Poll::Ready(opt) => {
                                        taken = Some(Either::Left(opt));
                                        proof {
                                            assert(pick == Some(true));
                                        }
                                    }
                                    Poll::Pending => {
                                        proof {
                                            assert(pick is None);
                                        }
                                    }
                                }
                            }
                        }
                    }
                } else if !a_done {
                    // only source a is still active: a plain take, no race
                    match pa.get(0) {
                        Poll::Ready(opt) => {
                            taken = Some(Either::Left(opt));
                        }
                        Poll::Pending => {}
                    }
                } else {
                    // only source b is still active
                    match pb.get(0) {
                        Poll::Ready(opt) => {
                            taken = Some(Either::Right(opt));
                        }
                        Poll::Pending => {}
                    }
                }
                match taken {
                    None => {}
                    Some(Either::Left(opt)) => {
                        match opt {
                            None => {
                                // source a's end marker: exhaustion is final
                                a_done = true;
                            }
                            Some(x) => {
                                proof {
                                    lemma_lefts_push(out, Either::Left(x));
                                    assert((pre + out).push(Either::Left(x)) =~= pre + out.push(
                                        Either::Left(x),
                                    ));
                                    assert(abase + lefts(out).push(x) + slot_items(prod_a.hold)
                                        =~= abase + lefts(out) + (seq![x] + slot_items(
                                        prod_a.hold,
                                    )));
                                    assert((vpre + verdict_run(out.len() as nat, false)).push(true)
                                        =~= vpre + verdict_run((out.len() + 1) as nat, false));
                                    assert((vpre + verdict_run(out.len() as nat, false)).push(
                                        false,
                                    ) =~= vpre + verdict_run((out.len() + 1) as nat, true));
                                }
                                let more = s.accept(Either::Left(x));
                                proof {
                                    assert(s.received().skip(pre.len() as int) =~= out.push(
                                        Either::Left(x),
                                    ));
                                }
                                if !more {
                                    proof {
                                        lemma_chain_prefix(
                                            abase,
                                            lefts(out.push(Either::Left(x))),
                                            in_flight(prod_a, pa),
                                            a.full(),
                                        );
                                        lemma_chain_prefix(
                                            bbase,
                                            rights(out.push(Either::Left(x))),
                                            in_flight(prod_b, pb),
                                            b.full(),
                                        );
                                    }
                                    return (s, ExecStatus::Stopped);
                                }
                            }
                        }
                    }
                    Some(Either::Right(opt)) => {
                        match opt {
                            None => {
                                // source b's end marker: exhaustion is final
                                b_done = true;
                            }
                            Some(y) => {
                                proof {
                                    lemma_lefts_push(out, Either::Right(y));
                                    assert((pre + out).push(Either::Right(y)) =~= pre + out.push(
                                        Either::Right(y),
                                    ));
                                    assert(bbase + rights(out).push(y) + slot_items(prod_b.hold)
                                        =~= bbase + rights(out) + (seq![y] + slot_items(
                                        prod_b.hold,
                                    )));
                                    assert((vpre + verdict_run(out.len() as nat, false)).push(true)
                                        =~= vpre + verdict_run((out.len() + 1) as nat, false));
                                    assert((vpre + verdict_run(out.len() as nat, false)).push(
                                        false,
                                    ) =~= vpre + verdict_run((out.len() + 1) as nat, true));
                                }
                                let more = s.accept(Either::Right(y));
                                proof {
                                    assert(s.received().skip(pre.len() as int) =~= out.push(
                                        Either::Right(y),
                                    ));
                                }
                                if !more {
                                    proof {
                                        lemma_chain_prefix(
                                            abase,
                                            lefts(out.push(Either::Right(y))),
                                            in_flight(prod_a, pa),
                                            a.full(),
                                        );
                                        lemma_chain_prefix(
                                            bbase,
                                            rights(out.push(Either::Right(y))),
                                            in_flight(prod_b, pb),
                                            b.full(),
                                        );
                                    }
                                    return (s, ExecStatus::Stopped);
                                }
                            }
                        }
                    }
                }
            } else if pos == 1 {
                tick(&mut prod_a, &mut pa, 1, Ghost(lefts(out)), Ghost(abase));
            } else {
                tick(&mut prod_b, &mut pb, 2, Ghost(rights(out)), Ghost(bbase));
            }
            pos = if pos == 2 {
                0
            } else {
                pos + 1
            };
        }
        proof {
            let out = s.received().skip(pre.len() as int);
            lemma_chain_prefix(abase, lefts(out), in_flight(prod_a, pa), a.full());
            lemma_chain_prefix(bbase, rights(out), in_flight(prod_b, pb), b.full());
        }
        (s, ExecStatus::OutOfFuel)
    }
}

} // verus!
