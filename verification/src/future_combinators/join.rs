//! A flexible join combinator: a root task plus any number of side tasks,
//! driven concurrently by a flat round-robin rotation inside one combined
//! suspension point.
//!
//! When the root task completes, the whole join completes at once and every
//! other task is abandoned where it stands. A side task that completes early
//! is marked rested and skipped on its later turns: a finished task's body is
//! never run again.

use vstd::prelude::*;
use crate::{Poll, Task};

verus! {

/// A fixed rotation of tasks built at construction time: one root plus the
/// side tasks appended with `with`, in order. Driving it performs ticks;
/// each tick polls exactly the task at one rotation position.
pub trait JoinFuture<C>: Sized {
    type Output;

    spec fn size_spec(&self) -> nat;

    spec fn inv(&self) -> bool;

    spec fn done_with(&self, ctx: &C, out: &Self::Output) -> bool;

    /// How many tasks the rotation holds, the root included.
    fn size(&self) -> (n: usize)
        requires
            self.size_spec() <= usize::MAX,
        ensures
            n == self.size_spec(),
    ;

    /// One tick aimed at the task `depth` positions into the rotation.
    /// Aiming a tick outside the rotation is a contract violation, not a
    /// recoverable condition.
    fn poll_depth(&mut self, ctx: &mut C, depth: usize) -> (r: Poll<Self::Output>)
        requires
            old(self).inv(),
            depth < old(self).size_spec(),
        ensures
            final(self).inv(),
            final(self).size_spec() == old(self).size_spec(),
            (r matches Poll::Ready(v) ==> final(self).done_with(&*final(ctx), &v)),
    ;

    /// Appends one more side task, growing the rotation by one.
    fn with<F: Task<C, Output = ()>>(self, f: F) -> (r: JoinWith<F, Self>)
        requires
            self.inv(),
            f.inv(),
        ensures
            r == (JoinWith { future: f, rested: false, next: self }),
    {
        JoinWith { future: f, rested: false, next: self }
    }
}

/// The rotation holding just the root task.
pub struct JoinRoot<F> {
    pub future: F,
}

/// Builds a join around its root task; side tasks are added with `with`.
pub fn join<C, F: Task<C>>(f: F) -> (r: JoinRoot<F>)
    requires
        f.inv(),
    ensures
        r == (JoinRoot { future: f }),
{
    JoinRoot { future: f }
}

impl<C, F: Task<C>> JoinFuture<C> for JoinRoot<F> {
    type Output = F::Output;

    open spec fn size_spec(&self) -> nat {
        1
    }

    open spec fn inv(&self) -> bool {
        self.future.inv()
    }

    open spec fn done_with(&self, ctx: &C, out: &F::Output) -> bool {
        self.future.done_with(ctx, out)
    }

    fn size(&self) -> (n: usize) {
        1
    }

    fn poll_depth(&mut self, ctx: &mut C, depth: usize) -> (r: Poll<F::Output>) {
        self.future.poll(ctx)
    }
}

/// A rotation extended by one side task. A side task yields no value of its
/// own, only a completion signal; once it has completed it is `rested` and
/// its turns are spent idle.
pub struct JoinWith<F, G> {
    pub future: F,
    pub rested: bool,
    pub next: G,
}

impl<C, F: Task<C, Output = ()>, G: JoinFuture<C>> JoinFuture<C> for JoinWith<F, G> {
    type Output = G::Output;

    open spec fn size_spec(&self) -> nat {
        1 + self.next.size_spec()
    }

    open spec fn inv(&self) -> bool {
        (!self.rested ==> self.future.inv()) && self.next.inv()
    }

    open spec fn done_with(&self, ctx: &C, out: &G::Output) -> bool {
        self.next.done_with(ctx, out)
    }

    fn size(&self) -> (n: usize) {
        1 + self.next.size()
    }

    /// A tick aimed at this side task never resolves the join — only the
    /// root's completion can — and a rested side task stays rested, its body
    /// left untouched: a finished task is never re-run.
    fn poll_depth(&mut self, ctx: &mut C, depth: usize) -> (r: Poll<G::Output>)
        ensures
            (depth == 0 ==> r is Pending),
            (old(self).rested ==> final(self).rested && final(self).future == old(self).future),
    {
        if depth == 0 {
            if !self.rested {
                match self.future.poll(ctx) {
                    Poll::Ready(_) => {
                        // finished while the join as a whole goes on: rest,
                        // so this body is never invoked again
                        self.rested = true;
                    }
                    Poll::Pending => {}
                }
            }
            Poll::Pending
        } else {
            self.next.poll_depth(ctx, depth - 1)
        }
    }
}

/// Drives a join rotation: each turn ticks the task one position earlier
/// than the last, wrapping around so that every task — the root included —
/// gets one tick per cycle, until the root task completes or the step budget
/// runs out. Completion of the root is the only way the join finishes.
#[verifier::loop_isolation(false)]
pub fn run_join<C, J: JoinFuture<C>>(j: &mut J, ctx: &mut C, fuel: usize) -> (r: Poll<J::Output>)
    requires
        old(j).inv(),
        1 <= old(j).size_spec(),
        old(j).size_spec() <= usize::MAX,
    ensures
        final(j).inv(),
        (r matches Poll::Ready(v) ==> final(j).done_with(&*final(ctx), &v)),
{
    let mut i: usize = j.size();
    let mut n: usize = fuel;
    while n > 0
        invariant
            j.inv(),
            j.size_spec() == old(j).size_spec(),
            1 <= i <= j.size_spec(),
        decreases n,
    {
        n = n - 1;
        i = i - 1;
        if i == 0 {
            i = j.size();
        }
        match j.poll_depth(ctx, i - 1) {
            Poll::Ready(v) => {
                return Poll::Ready(v);
            }
            Poll::Pending => {}
        }
    }
    Poll::Pending
}

} // verus!
