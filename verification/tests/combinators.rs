//! The join scheduler, the fair race, and the busy-polling driver.

use fairmerge::future_combinators::join::{join, run_join, JoinFuture};
use fairmerge::future_combinators::race;
use fairmerge::{block_on, Either, Poll, Task};

struct Cells {
    c1: i32,
    c2: i32,
}

struct WatchSum;

impl Task<Cells> for WatchSum {
    type Output = i32;

    fn inv(&self) -> bool {
        true
    }

    fn done_with(&self, _ctx: &Cells, _out: &Self::Output) -> bool {
        true
    }

    fn poll(&mut self, ctx: &mut Cells) -> Poll<i32> {
        if ctx.c1 < 10 && ctx.c2 < 10 {
            Poll::Pending
        } else {
            Poll::Ready(ctx.c1 + ctx.c2)
        }
    }
}

struct BumpFirst;

impl Task<Cells> for BumpFirst {
    type Output = ();

    fn inv(&self) -> bool {
        true
    }

    fn done_with(&self, _ctx: &Cells, _out: &Self::Output) -> bool {
        true
    }

    fn poll(&mut self, ctx: &mut Cells) -> Poll<()> {
        ctx.c1 += 1;
        Poll::Pending
    }
}

struct BumpSecond;

impl Task<Cells> for BumpSecond {
    type Output = ();

    fn inv(&self) -> bool {
        true
    }

    fn done_with(&self, _ctx: &Cells, _out: &Self::Output) -> bool {
        true
    }

    fn poll(&mut self, ctx: &mut Cells) -> Poll<()> {
        ctx.c2 += 1;
        Poll::Pending
    }
}

#[test]
fn join_futures() {
    let mut ctx = Cells { c1: 0, c2: 0 };
    let mut f = join(WatchSum).with(BumpFirst).with(BumpSecond);
    let result = run_join(&mut f, &mut ctx, 1000);
    assert!(matches!(result, Poll::Ready(20)));
}

/// A side task that completes on its first turn; the scheduler must rest it
/// rather than run its body again.
struct BumpOnce;

impl Task<Cells> for BumpOnce {
    type Output = ();

    fn inv(&self) -> bool {
        true
    }

    fn done_with(&self, _ctx: &Cells, _out: &Self::Output) -> bool {
        true
    }

    fn poll(&mut self, ctx: &mut Cells) -> Poll<()> {
        ctx.c1 += 1;
        Poll::Ready(())
    }
}

struct WatchSecond;

impl Task<Cells> for WatchSecond {
    type Output = i32;

    fn inv(&self) -> bool {
        true
    }

    fn done_with(&self, _ctx: &Cells, _out: &Self::Output) -> bool {
        true
    }

    fn poll(&mut self, ctx: &mut Cells) -> Poll<i32> {
        if ctx.c2 < 3 {
            Poll::Pending
        } else {
            Poll::Ready(ctx.c1)
        }
    }
}

#[test]
fn join_rests_a_completed_side_task() {
    let mut ctx = Cells { c1: 0, c2: 0 };
    let mut f = join(WatchSecond).with(BumpOnce).with(BumpSecond);
    let result = run_join(&mut f, &mut ctx, 1000);
    // the one-shot side task ran exactly once even though the join went on
    assert!(matches!(result, Poll::Ready(1)));
}

struct ReadyAt {
    left: u32,
    value: i32,
}

impl Task<()> for ReadyAt {
    type Output = i32;

    fn inv(&self) -> bool {
        true
    }

    fn done_with(&self, _ctx: &(), _out: &Self::Output) -> bool {
        true
    }

    fn poll(&mut self, _ctx: &mut ()) -> Poll<i32> {
        if self.left == 0 {
            Poll::Ready(self.value)
        } else {
            self.left -= 1;
            Poll::Pending
        }
    }
}

#[test]
fn block_on_drives_a_task_to_completion() {
    let mut t = ReadyAt { left: 3, value: 42 };
    assert!(matches!(block_on(&mut t, &mut (), 100), Poll::Ready(42)));
}

#[test]
fn block_on_reports_an_exhausted_budget() {
    let mut t = ReadyAt { left: 5, value: 42 };
    assert!(matches!(block_on(&mut t, &mut (), 3), Poll::Pending));
}

#[test]
fn race_reports_the_side_that_finishes_first() {
    let mut quick = ReadyAt { left: 0, value: 7 };
    let mut never = ReadyAt { left: u32::MAX, value: 0 };
    match race(&mut quick, &mut never, &mut (), 10) {
        Poll::Ready(Either::Left(x)) => assert_eq!(x, 7),
        _ => panic!("the ready side must win"),
    }

    let mut quick = ReadyAt { left: 0, value: 7 };
    let mut never = ReadyAt { left: u32::MAX, value: 0 };
    match race(&mut never, &mut quick, &mut (), 10) {
        Poll::Ready(Either::Right(x)) => assert_eq!(x, 7),
        _ => panic!("the ready side must win"),
    }
}

#[test]
fn race_examines_the_first_operand_first_when_both_are_ready() {
    let mut a = ReadyAt { left: 0, value: 1 };
    let mut b = ReadyAt { left: 0, value: 2 };
    match race(&mut a, &mut b, &mut (), 10) {
        Poll::Ready(Either::Left(x)) => assert_eq!(x, 1),
        _ => panic!("with both ready, the side named by the fresh bit wins"),
    }
}

#[test]
fn race_with_neither_side_ready_suspends() {
    let mut a = ReadyAt { left: u32::MAX, value: 0 };
    let mut b = ReadyAt { left: u32::MAX, value: 0 };
    assert!(matches!(race(&mut a, &mut b, &mut (), 10), Poll::Pending));
}
