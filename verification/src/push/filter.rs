//! The predicate-filter adapter for push streams.
//!
//! Filtering a push stream takes more capability than transforming one: the
//! filter must sit between the stream and its consumer, pass judgement on
//! every item, and forward only the accepted ones.

use vstd::prelude::*;
use super::{verdict_run, ExecStatus, Sink, Stream};

verus! {

/// `out` is the subsequence of `src` kept by the predicate, judged element
/// by element: for each element, some answer the predicate can give on it
/// decides whether it is kept.
pub open spec fn filtered_by<T, F: Fn(&T) -> bool>(f: F, src: Seq<T>, out: Seq<T>) -> bool
    decreases src.len(),
{
    if src.len() == 0 {
        out.len() == 0
    } else {
        exists|keep: bool|
            #[trigger] call_ensures(f, (&src.last(),), keep) && if keep {
                out.len() > 0 && out.last() == src.last() && filtered_by(
                    f,
                    src.drop_last(),
                    out.drop_last(),
                )
            } else {
                filtered_by(f, src.drop_last(), out)
            }
    }
}

/// The consumer a filter interposes: every offered item is judged, the kept
/// ones go through to the wrapped consumer, and the wrapped consumer's
/// willingness to continue is reported back for all of them.
pub struct FilterSink<T, S2: Sink<T>, F> {
    pub inner: S2,
    pub predicate: F,
    pub base: Ghost<Seq<T>>,
    pub vbase: Ghost<Seq<bool>>,
    pub hist: Ghost<Seq<T>>,
    pub log: Ghost<Seq<bool>>,
}

impl<T, S2: Sink<T>, F: Fn(&T) -> bool> Sink<T> for FilterSink<T, S2, F> {
    type Anchor = (Seq<T>, Seq<bool>, F, S2::Anchor);

    open spec fn anchor(&self) -> (Seq<T>, Seq<bool>, F, S2::Anchor) {
        (self.base@, self.vbase@, self.predicate, self.inner.anchor())
    }

    open spec fn inv(&self) -> bool {
        &&& self.inner.inv()
        &&& forall|x: T| call_requires(self.predicate, (&x,))
        &&& self.base@.is_prefix_of(self.inner.received())
        &&& filtered_by(
            self.predicate,
            self.hist@,
            self.inner.received().skip(self.base@.len() as int),
        )
        &&& self.log@.len() == self.hist@.len()
        &&& self.inner.verdicts() == self.vbase@ + verdict_run(
            (self.inner.received().len() - self.base@.len()) as nat,
            !self.inner.more_now(),
        )
        &&& (self.inner.received().len() == self.base@.len() ==> self.inner.more_now())
    }

    open spec fn received(&self) -> Seq<T> {
        self.hist@
    }

    open spec fn verdicts(&self) -> Seq<bool> {
        self.log@
    }

    open spec fn more_now(&self) -> bool {
        self.inner.more_now()
    }

    open spec fn ended(&self) -> bool {
        self.inner.ended()
    }

    fn more(&self) -> (b: bool) {
        self.inner.more()
    }

    fn accept(&mut self, item: T) -> (more: bool) {
        let ghost pre_hist = self.hist@;
        let ghost pre_delta = self.inner.received().skip(self.base@.len() as int);
        let keep = (self.predicate)(&item);
        self.hist = Ghost(self.hist@.push(item));
        proof {
            assert(self.hist@.drop_last() =~= pre_hist);
            assert(self.hist@.last() == item);
        }
        let more = if keep {
            let m = self.inner.accept(item);
            proof {
                let delta = self.inner.received().skip(self.base@.len() as int);
                assert(delta =~= pre_delta.push(item));
                assert(delta.drop_last() =~= pre_delta);
                assert((self.base@ + delta).take(self.base@.len() as int) =~= self.base@);
                assert(self.base@ + delta =~= self.inner.received());
                let k = pre_delta.len() as nat;
                assert((self.vbase@ + verdict_run(k, false)).push(m) =~= self.vbase@ + verdict_run(
                    (k + 1) as nat,
                    !m,
                ));
            }
            m
        } else {
            let m = self.inner.more();
            proof {
                assert(self.inner.received().skip(self.base@.len() as int) =~= pre_delta);
            }
            m
        };
        self.log = Ghost(self.log@.push(more));
        more
    }

    fn end(&mut self) {
        self.inner.end();
    }
}

/// A push stream that forwards only the items of an underlying stream that
/// a predicate accepts. The predicate must be willing to judge any item.
pub struct Filter<St: Stream, F: Fn(&St::Item) -> bool> {
    pub stream: St,
    pub predicate: F,
}

/// Wraps a push stream with a predicate.
pub fn filter<St: Stream, F: Fn(&St::Item) -> bool>(stream: St, predicate: F) -> (r: Filter<St, F>)
    ensures
        r.stream == stream,
        r.predicate == predicate,
{
    Filter { stream, predicate }
}

impl<St: Stream, F: Fn(&St::Item) -> bool> Stream for Filter<St, F> {
    type Item = St::Item;

    open spec fn inv(&self) -> bool {
        self.stream.inv() && forall|x: St::Item| call_requires(self.predicate, (&x,))
    }

    /// One run of the filtered stream delivers exactly the kept part of what
    /// one run of the underlying stream offered.
    open spec fn exec_ens(&self, pre: Seq<St::Item>, post: Seq<St::Item>, status: ExecStatus) -> bool {
        exists|offered: Seq<St::Item>|
            #[trigger] self.stream.exec_ens(Seq::<St::Item>::empty(), offered, status)
                && filtered_by(self.predicate, offered, post.skip(pre.len() as int))
    }

    fn exec<S: Sink<St::Item>>(self, sink: S, fuel: usize) -> (r: (S, ExecStatus)) {
        let Filter { stream, predicate } = self;
        let ghost base = sink.received();
        let ghost vbase = sink.verdicts();
        let fsink = FilterSink {
            inner: sink,
            predicate,
            base: Ghost(base),
            vbase: Ghost(vbase),
            hist: Ghost(Seq::empty()),
            log: Ghost(Seq::empty()),
        };
        proof {
            assert(fsink.inner.received().skip(fsink.base@.len() as int) =~= Seq::<
                St::Item,
            >::empty());
            assert(fsink.base@ =~= fsink.inner.received().subrange(0, fsink.base@.len() as int));
            assert(verdict_run(0, false) =~= Seq::<bool>::empty());
            assert(fsink.vbase@ + verdict_run(0, false) =~= fsink.vbase@);
        }
        let (fs, status) = stream.exec(fsink, fuel);
        proof {
            assert(fs.base@ == base);
            assert(fs.vbase@ == vbase);
            assert(fs.predicate == predicate);
            assert(fs.inner.verdicts() == vbase + verdict_run(
                (fs.inner.received().len() - base.len()) as nat,
                !fs.inner.more_now(),
            ));
            if status == ExecStatus::Stopped {
                assert(!fs.inner.more_now());
                assert(fs.inner.received().len() > base.len());
            } else {
                assert(fs.inner.more_now());
            }
            assert(stream.exec_ens(Seq::<St::Item>::empty(), fs.received(), status));
            assert(filtered_by(predicate, fs.received(), fs.inner.received().skip(
                base.len() as int,
            )));
        }
        (fs.inner, status)
    }
}

} // verus!
