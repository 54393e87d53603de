//! Combinators on suspendable operations: the fairness-preserving two-way
//! race, and the round-robin join scheduler in the `join` module.

use vstd::prelude::*;
use crate::{Either, Poll, Task};

pub mod join;

verus! {

/// Which side a fair race reports for one attempt, given the two sides'
/// readiness: the side named by the fresh alternation bit is examined first
/// and wins if it is ready; only otherwise is the other side consulted, so a
/// simultaneous readiness of the second-examined side is deferred to the next
/// attempt. `Some(true)` means the first operand won, `Some(false)` the
/// second, `None` that neither was ready.
pub open spec fn race_pick(parity: bool, a_ready: bool, b_ready: bool) -> Option<bool> {
    if parity {
        if a_ready {
            Some(true)
        } else if b_ready {
            Some(false)
        } else {
            None
        }
    } else {
        if b_ready {
            Some(false)
        } else if a_ready {
            Some(true)
        } else {
            None
        }
    }
}

/// The winners of `k` consecutive race resolutions during which both sides
/// stay ready, starting from alternation bit `p0` and flipping it before
/// each attempt: `true` marks a win for the first operand.
pub open spec fn both_ready_winners(p0: bool, k: nat) -> Seq<bool> {
    Seq::new(k, |i: int| if i % 2 == 0 { !p0 } else { p0 })
}

/// With both sides ready, one attempt hands the win to the side the fresh
/// alternation bit names.
pub proof fn lemma_race_pick_both_ready(parity: bool)
    ensures
        race_pick(parity, true, true) == Some(parity),
{
}

pub open spec fn count_true(s: Seq<bool>) -> nat
    decreases s.len(),
{
    if s.len() == 0 {
        0
    } else {
        count_true(s.drop_last()) + if s.last() {
            1nat
        } else {
            0nat
        }
    }
}

/// The exact win tally under sustained simultaneous readiness: the winners
/// strictly alternate, so the first operand wins ⌈k/2⌉ or ⌊k/2⌋ of the `k`
/// resolutions according to the starting bit.
pub proof fn lemma_both_ready_count(p0: bool, k: nat)
    ensures
        count_true(both_ready_winners(p0, k)) == if p0 {
            k as int / 2
        } else {
            (k as int + 1) / 2
        },
    decreases k,
{
    if k > 0 {
        lemma_both_ready_count(p0, (k - 1) as nat);
        assert(both_ready_winners(p0, k).drop_last() =~= both_ready_winners(p0, (k - 1) as nat));
    }
}

/// Fairness bound: if both sides are simultaneously and repeatedly ready for
/// `k` consecutive race resolutions, neither side is selected more than
/// ⌈k/2⌉ times — the alternation bit hands out wins strictly in turns.
pub proof fn lemma_fairness_bound(p0: bool, k: nat)
    ensures
        count_true(both_ready_winners(p0, k)) <= (k as int + 1) / 2,
        k - count_true(both_ready_winners(p0, k)) <= (k as int + 1) / 2,
{
    lemma_both_ready_count(p0, k);
}

/// Races two suspendable operations over their shared context: polls them in
/// alternating order until the first of them finishes, and reports which one
/// it was. The losing side is left exactly as its last poll left it, neither
/// cancelled nor driven further; a caller that still needs its result must
/// keep polling it afterwards.
pub fn race<C, A: Task<C>, B: Task<C>>(a: &mut A, b: &mut B, ctx: &mut C, fuel: usize) -> (r:
    Poll<Either<A::Output, B::Output>>)
    requires
        old(a).inv(),
        old(b).inv(),
    ensures
        final(a).inv(),
        final(b).inv(),
        (r matches Poll::Ready(out) ==> match out {
            Either::Left(x) => final(a).done_with(&*final(ctx), &x),
            Either::Right(y) => final(b).done_with(&*final(ctx), &y),
        }),
{
    let mut parity = false;
    let mut n: usize = fuel;
    while n > 0
        invariant
            a.inv(),
            b.inv(),
        decreases n,
    {
        n = n - 1;
        parity = !parity;
        if parity {
            match a.poll(ctx) {
                Poll::Ready(x) => {
                    return Poll::Ready(Either::Left(x));
                }
                Poll::Pending => {}
            }
            match b.poll(ctx) {
                Poll::Ready(y) => {
                    return Poll::Ready(Either::Right(y));
                }
                Poll::Pending => {}
            }
        } else {
            match b.poll(ctx) {
                Poll::Ready(y) => {
                    return Poll::Ready(Either::Right(y));
                }
                Poll::Pending => {}
            }
            match a.poll(ctx) {
                Poll::Ready(x) => {
                    return Poll::Ready(Either::Left(x));
                }
                Poll::Pending => {}
            }
        }
    }
    Poll::Pending
}

} // verus!
