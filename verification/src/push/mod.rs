use vstd::prelude::*;
use crate::afit::PinnedAsyncIterator;
use crate::Poll;

pub mod filter;
pub mod merge;

verus! {

/// How one run of a push stream came to its end.
#[derive(Clone, Copy, PartialEq, Eq, Structural, Debug)]
pub enum ExecStatus {
    /// Every item was delivered and the end-of-sequence signal was given.
    Done,
    /// The consumer answered "stop"; the run was cut short and no
    /// end-of-sequence signal was given.
    Stopped,
    /// The step budget ran out while some operation was still suspended.
    OutOfFuel,
}

/// The downstream consumer of a push stream.
///
/// `received()` is the history of items accepted so far, and `verdicts()` the
/// history of continue-or-stop answers, one per item. `more_now()` is the
/// consumer's current willingness to take another item; `accept` may only be
/// called while it holds, so a consumer that has answered "stop" is never
/// pushed to again. `end()` delivers the end-of-sequence signal, at most once.
pub trait Sink<T> {
    /// The part of the consumer's constitution that no amount of feeding
    /// changes: its policy, not its state. Every operation preserves it, so
    /// whoever hands a consumer to a stream gets it back as it was.
    type Anchor;

    spec fn inv(&self) -> bool;

    spec fn anchor(&self) -> Self::Anchor;

    spec fn received(&self) -> Seq<T>;

    spec fn verdicts(&self) -> Seq<bool>;

    spec fn more_now(&self) -> bool;

    spec fn ended(&self) -> bool;

    fn more(&self) -> (b: bool)
        requires
            self.inv(),
        ensures
            b == self.more_now(),
    ;

    fn accept(&mut self, item: T) -> (more: bool)
        requires
            old(self).inv(),
            !old(self).ended(),
            old(self).more_now(),
        ensures
            final(self).inv(),
            final(self).anchor() == old(self).anchor(),
            final(self).received() == old(self).received().push(item),
            final(self).verdicts() == old(self).verdicts().push(more),
            !final(self).ended(),
            more == final(self).more_now(),
    ;

    fn end(&mut self)
        requires
            old(self).inv(),
            !old(self).ended(),
        ensures
            final(self).inv(),
            final(self).anchor() == old(self).anchor(),
            final(self).received() == old(self).received(),
            final(self).verdicts() == old(self).verdicts(),
            final(self).ended(),
            final(self).more_now() == old(self).more_now(),
    ;
}

/// The shape the continue-or-stop answers of one run always take: every
/// answer is "continue", except that a run the consumer cut short ends with
/// exactly one "stop".
pub open spec fn verdict_run(n: nat, stopped: bool) -> Seq<bool> {
    Seq::new(n, |i: int| !stopped || i < n - 1)
}

/// A push-driven stream of items: `exec` drives the whole stream, handing
/// each item to the consumer in turn and asking after each whether to go on.
///
/// What a particular stream delivers is its own `exec_ens`, stated over the
/// consumer's item history before and after the run; the clauses on `exec`
/// itself hold for every stream: the history only grows, one verdict is
/// recorded per item, every verdict but a final "stop" is "continue", and the
/// end-of-sequence signal is given exactly on a `Done` run.
pub trait Stream: Sized {
    type Item;

    spec fn inv(&self) -> bool;

    spec fn exec_ens(&self, pre: Seq<Self::Item>, post: Seq<Self::Item>, status: ExecStatus) -> bool;

    fn exec<S: Sink<Self::Item>>(self, sink: S, fuel: usize) -> (r: (S, ExecStatus))
        requires
            self.inv(),
            sink.inv(),
            !sink.ended(),
            sink.more_now(),
        ensures
            r.0.inv(),
            r.0.anchor() == sink.anchor(),
            sink.received().is_prefix_of(r.0.received()),
            r.0.verdicts() == sink.verdicts() + verdict_run(
                (r.0.received().len() - sink.received().len()) as nat,
                r.1 == ExecStatus::Stopped,
            ),
            r.0.ended() == (r.1 == ExecStatus::Done),
            (r.1 == ExecStatus::Stopped ==> r.0.received().len() > sink.received().len()
                && !r.0.more_now()),
            (r.1 != ExecStatus::Stopped ==> r.0.more_now()),
            self.exec_ens(sink.received(), r.0.received(), r.1),
    ;

    /// Runs the stream purely for its effect on the consumer, with the same
    /// promises as `exec`: in particular, a run that a never-stopping
    /// consumer takes part in is never cut short.
    fn for_each<S: Sink<Self::Item>>(self, sink: S, fuel: usize) -> (r: (S, ExecStatus))
        requires
            self.inv(),
            sink.inv(),
            !sink.ended(),
            sink.more_now(),
        ensures
            r.0.inv(),
            r.0.anchor() == sink.anchor(),
            sink.received().is_prefix_of(r.0.received()),
            r.0.verdicts() == sink.verdicts() + verdict_run(
                (r.0.received().len() - sink.received().len()) as nat,
                r.1 == ExecStatus::Stopped,
            ),
            r.0.ended() == (r.1 == ExecStatus::Done),
            (r.1 == ExecStatus::Stopped ==> r.0.received().len() > sink.received().len()
                && !r.0.more_now()),
            (r.1 != ExecStatus::Stopped ==> r.0.more_now()),
            self.exec_ens(sink.received(), r.0.received(), r.1),
    {
        self.exec(sink, fuel)
    }
}

/// A push stream that pulls from a pollable cursor and forwards everything
/// the cursor yields, in order, then gives the end-of-sequence signal.
pub struct AsyncIterStream<I: PinnedAsyncIterator> {
    pub iter: I,
}

/// Wraps a pollable cursor as a push stream.
pub fn from_async_iter<I: PinnedAsyncIterator>(iter: I) -> (r: AsyncIterStream<I>)
    ensures
        r.iter == iter,
{
    AsyncIterStream { iter }
}

impl<I: PinnedAsyncIterator> Stream for AsyncIterStream<I> {
    type Item = I::Item;

    open spec fn inv(&self) -> bool {
        &&& self.iter.inv()
        &&& self.iter.yielded().is_prefix_of(self.iter.full())
        &&& (self.iter.done() ==> self.iter.yielded() == self.iter.full())
    }

    /// Delivers a prefix of what the cursor still had to yield: everything,
    /// on a completed run.
    open spec fn exec_ens(&self, pre: Seq<I::Item>, post: Seq<I::Item>, status: ExecStatus) -> bool {
        let out = post.skip(pre.len() as int);
        let rest = self.iter.full().skip(self.iter.yielded().len() as int);
        &&& out.is_prefix_of(rest)
        &&& (status == ExecStatus::Done ==> out == rest)
    }

    #[verifier::loop_isolation(false)]
    fn exec<S: Sink<I::Item>>(self, sink: S, fuel: usize) -> (r: (S, ExecStatus)) {
        let AsyncIterStream { mut iter } = self;
        let ghost base = iter.yielded();
        let ghost pre = sink.received();
        let ghost vpre = sink.verdicts();
        let mut s = sink;
        let mut n: usize = fuel;
        proof {
            assert(iter.yielded().skip(base.len() as int) =~= Seq::<I::Item>::empty());
            assert(s.received() =~= pre + iter.yielded().skip(base.len() as int));
            assert(verdict_run(0, false) =~= Seq::<bool>::empty());
            assert(s.verdicts() =~= vpre + verdict_run(0, false));
        }
        while n > 0
            invariant
                iter.inv(),
                iter.full() == self.iter.full(),
                base.is_prefix_of(iter.yielded()),
                iter.yielded().is_prefix_of(iter.full()),
                s.inv(),
                s.anchor() == sink.anchor(),
                !s.ended(),
                s.more_now(),
                s.received() == pre + iter.yielded().skip(base.len() as int),
                s.verdicts() == vpre + verdict_run(
                    (s.received().len() - pre.len()) as nat,
                    false,
                ),
            decreases n,
        {
            n = n - 1;
            let ghost out = iter.yielded().skip(base.len() as int);
            match iter.poll_next() {
                Poll::Pending => {}
                Poll::Ready(opt) => {
                    match opt {
                        Some(x) => {
                            proof {
                                assert(iter.yielded().skip(base.len() as int) =~= out.push(x));
                                assert((pre + out).push(x) =~= pre + out.push(x));
                                assert(base =~= iter.yielded().subrange(0, base.len() as int));
                                assert((vpre + verdict_run(out.len() as nat, false)).push(true)
                                    =~= vpre + verdict_run((out.len() + 1) as nat, false));
                                assert((vpre + verdict_run(out.len() as nat, false)).push(false)
                                    =~= vpre + verdict_run((out.len() + 1) as nat, true));
                            }
                            let more = s.accept(x);
                            if !more {
                                proof {
                                    let out2 = iter.yielded().skip(base.len() as int);
                                    assert((pre + out2).take(pre.len() as int) =~= pre);
                                    assert(s.received().skip(pre.len() as int) =~= out2);
                                    assert(out2 =~= iter.full().skip(base.len() as int).subrange(
                                        0,
                                        out2.len() as int,
                                    ));
                                }
                                return (s, ExecStatus::Stopped);
                            }
                        }
                        None => {
                            s.end();
                            proof {
                                assert((pre + out).take(pre.len() as int) =~= pre);
                                assert(s.received().skip(pre.len() as int) =~= out);
                                assert(out =~= iter.full().skip(base.len() as int));
                            }
                            return (s, ExecStatus::Done);
                        }
                    }
                }
            }
        }
        proof {
            let out = iter.yielded().skip(base.len() as int);
            assert((pre + out).take(pre.len() as int) =~= pre);
            assert(s.received().skip(pre.len() as int) =~= out);
            assert(out =~= iter.full().skip(base.len() as int).subrange(0, out.len() as int));
        }
        (s, ExecStatus::OutOfFuel)
    }
}

/// A consumer that gathers everything it is handed into a vector, optionally
/// answering "stop" once a given number of items has arrived.
pub struct Collector<T> {
    pub items: Vec<T>,
    pub limit: Option<usize>,
    pub fin: bool,
    pub log: Ghost<Seq<bool>>,
}

impl<T> Collector<T> {
    pub open spec fn wants(limit: Option<usize>, len: nat) -> bool {
        match limit {
            Option::None => true,
            Option::Some(l) => len < l,
        }
    }

    /// A consumer that never asks to stop.
    pub fn new() -> (r: Collector<T>)
        ensures
            r.inv(),
            r.received() == Seq::<T>::empty(),
            r.verdicts() == Seq::<bool>::empty(),
            !r.ended(),
            r.more_now(),
            r.limit is None,
    {
        Collector { items: Vec::new(), limit: None, fin: false, log: Ghost(Seq::empty()) }
    }

    /// A consumer that answers "stop" as soon as `limit` items have arrived.
    pub fn with_limit(limit: usize) -> (r: Collector<T>)
        ensures
            r.inv(),
            r.received() == Seq::<T>::empty(),
            r.verdicts() == Seq::<bool>::empty(),
            !r.ended(),
            r.more_now() == (limit > 0),
            r.limit == Some(limit),
    {
        Collector { items: Vec::new(), limit: Some(limit), fin: false, log: Ghost(Seq::empty()) }
    }

    /// Hands back everything collected so far.
    pub fn into_vec(self) -> (v: Vec<T>)
        ensures
            v@ == self.received(),
    {
        self.items
    }
}

impl<T> Sink<T> for Collector<T> {
    type Anchor = Option<usize>;

    open spec fn anchor(&self) -> Option<usize> {
        self.limit
    }

    open spec fn inv(&self) -> bool {
        self.log@.len() == self.items@.len() && (forall|k: int|
            0 <= k < self.log@.len() ==> self.log@[k] == Self::wants(self.limit, (k + 1) as nat))
    }

    open spec fn received(&self) -> Seq<T> {
        self.items@
    }

    open spec fn verdicts(&self) -> Seq<bool> {
        self.log@
    }

    open spec fn more_now(&self) -> bool {
        Self::wants(self.limit, self.items@.len())
    }

    open spec fn ended(&self) -> bool {
        self.fin
    }

    fn more(&self) -> (b: bool) {
        match self.limit {
            Option::None => true,
            Option::Some(l) => self.items.len() < l,
        }
    }

    fn accept(&mut self, item: T) -> (more: bool) {
        self.items.push(item);
        let more = match self.limit {
            Option::None => true,
            Option::Some(l) => self.items.len() < l,
        };
        self.log = Ghost(self.log@.push(more));
        more
    }

    fn end(&mut self) {
        self.fin = true;
    }
}

/// Early stop, made concrete for the collecting consumer: a collector with
/// limit `l` that cut a run short has been handed exactly `l` items — the
/// run's answers were "continue" until the item that reached the limit, and
/// the stream stopped right there.
pub proof fn lemma_collector_stops_at_limit<T>(c: Collector<T>, l: usize)
    requires
        c.inv(),
        c.limit == Some(l),
        l >= 1,
        c.verdicts() == verdict_run(c.verdicts().len(), true),
        c.verdicts().len() >= 1,
    ensures
        c.received().len() == l,
{
    let n = c.verdicts().len() as int;
    assert(!c.verdicts()[n - 1]);
    assert(!Collector::<T>::wants(c.limit, n as nat));
    if n >= 2 {
        assert(c.verdicts()[n - 2]);
        assert(Collector::<T>::wants(c.limit, (n - 1) as nat));
    }
}

/// A push stream that delivers the elements of a vector, in order, and then
/// the end-of-sequence signal. It never suspends, so the step budget plays
/// no part.
pub struct IterStream<T> {
    pub items: Vec<T>,
}

/// Wraps a fully materialised sequence as a push stream.
pub fn from_iter<T>(items: Vec<T>) -> (r: IterStream<T>)
    ensures
        r.items@ == items@,
        r.inv(),
{
    IterStream { items }
}

impl<T> Stream for IterStream<T> {
    type Item = T;

    open spec fn inv(&self) -> bool {
        true
    }

    /// Delivers a prefix of the vector: everything, on a completed run.
    open spec fn exec_ens(&self, pre: Seq<T>, post: Seq<T>, status: ExecStatus) -> bool {
        exists|n: int|
            0 <= n <= self.items@.len() && post == pre + self.items@.take(n) && (status
                == ExecStatus::Done ==> n == self.items@.len()) && status != ExecStatus::OutOfFuel
    }

    #[verifier::loop_isolation(false)]
    fn exec<S: Sink<T>>(self, sink: S, fuel: usize) -> (r: (S, ExecStatus)) {
        let ghost all = self.items@;
        let ghost pre = sink.received();
        let ghost vpre = sink.verdicts();
        let mut v = self.items;
        let mut s = sink;
        let ghost mut n: int = 0;
        while v.len() > 0
            invariant
                s.inv(),
                s.anchor() == sink.anchor(),
                !s.ended(),
                s.more_now(),
                0 <= n <= all.len(),
                v@ == all.skip(n),
                s.received() == pre + all.take(n),
                s.verdicts() == vpre + verdict_run(n as nat, false),
            decreases v.len(),
        {
            let x = v.remove(0);
            proof {
                assert(all.skip(n)[0] == all[n]);
                assert(all.skip(n).remove(0) =~= all.skip(n + 1));
                assert((pre + all.take(n)).push(all[n]) =~= pre + all.take(n + 1));
                assert((vpre + verdict_run(n as nat, false)).push(true) =~= vpre + verdict_run(
                    (n + 1) as nat,
                    false,
                ));
                assert((vpre + verdict_run(n as nat, false)).push(false) =~= vpre + verdict_run(
                    (n + 1) as nat,
                    true,
                ));
            }
            let more = s.accept(x);
            proof {
                n = n + 1;
            }
            if !more {
                proof {
                    assert((pre + all.take(n)).take(pre.len() as int) =~= pre);
                    assert(s.received().len() - pre.len() == n);
                }
                return (s, ExecStatus::Stopped);
            }
        }
        proof {
            assert(all.take(n) =~= all);
            assert((pre + all.take(n)).take(pre.len() as int) =~= pre);
        }
        s.end();
        (s, ExecStatus::Done)
    }
}

} // verus!
