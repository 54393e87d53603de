//! The element-transform adapter for blocking pull cursors.

use vstd::prelude::*;
use super::AsyncIterator;

verus! {

/// Applies a function to every item of an underlying cursor. `hist` is the
/// history of transformed items handed out, `base` what the underlying
/// cursor had already yielded before it was wrapped.
#[verifier::reject_recursive_types(U)]
pub struct Mapped<Iter: AsyncIterator, F: Fn(Iter::Item) -> U, U> {
    pub iter: Iter,
    pub f: F,
    pub base: Ghost<Seq<Iter::Item>>,
    pub hist: Ghost<Seq<U>>,
}

impl<Iter: AsyncIterator, F: Fn(Iter::Item) -> U, U> AsyncIterator for Mapped<Iter, F, U> {
    type Item = U;

    open spec fn inv(&self) -> bool {
        &&& self.iter.inv()
        &&& forall|x: Iter::Item| call_requires(self.f, (x,))
        &&& self.base@.is_prefix_of(self.iter.yielded())
        &&& self.base@.len() + self.hist@.len() == self.iter.yielded().len()
        &&& forall|i: int|
            0 <= i < self.hist@.len() ==> call_ensures(
                self.f,
                (self.iter.yielded()[self.base@.len() + i],),
                #[trigger] self.hist@[i],
            )
    }

    open spec fn yielded(&self) -> Seq<U> {
        self.hist@
    }

    open spec fn done(&self) -> bool {
        self.iter.done()
    }

    fn next(&mut self) -> (r: Option<U>) {
        match self.iter.next() {
            Some(x) => {
                proof {
                    assert(self.base@ =~= self.iter.yielded().subrange(0, self.base@.len() as int));
                }
                let y = (self.f)(x);
                self.hist = Ghost(self.hist@.push(y));
                Some(y)
            }
            None => None,
        }
    }
}

/// Wraps a cursor so that every item passes through `f` on its way out.
/// The function must be willing to take any item.
pub fn map<Iter: AsyncIterator, F: Fn(Iter::Item) -> U, U>(iter: Iter, f: F) -> (r: Mapped<
    Iter,
    F,
    U,
>)
    requires
        iter.inv(),
        forall|x: Iter::Item| call_requires(f, (x,)),
    ensures
        r.inv(),
        r.yielded() == Seq::<U>::empty(),
        r.done() == iter.done(),
        r.iter == iter,
        r.f == f,
{
    Mapped { iter, f, base: Ghost(iter.yielded()), hist: Ghost(Seq::empty()) }
}

} // verus!
