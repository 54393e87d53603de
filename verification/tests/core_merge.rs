//! End-to-end behaviour of the push merge and its handshake channel.

use fairmerge::push::merge::{Merge, OnePipeInner};
use fairmerge::push::{Collector, ExecStatus, Stream};
use fairmerge::poll::VecSource;
use fairmerge::{Either, Poll};

fn split_tags(out: Vec<Either<i32, i32>>) -> (Vec<i32>, Vec<i32>) {
    let mut lefts = vec![];
    let mut rights = vec![];
    for e in out {
        match e {
            Either::Left(x) => lefts.push(x),
            Either::Right(y) => rights.push(y),
        }
    }
    (lefts, rights)
}

#[test]
fn merge_delivers_every_item_in_source_order() {
    let a = VecSource::new(vec![1, 2, 3]);
    let b = VecSource::new(vec![4, 5, 6]);
    let m = Merge::new(a, b);
    let (col, status) = m.exec(Collector::new(), 1000);
    assert!(matches!(status, ExecStatus::Done));
    assert!(col.fin, "the end-of-sequence signal must be given exactly on a completed run");
    let out = col.into_vec();
    assert_eq!(out.len(), 6);
    let (lefts, rights) = split_tags(out);
    assert_eq!(lefts, vec![1, 2, 3]);
    assert_eq!(rights, vec![4, 5, 6]);
}

#[test]
fn merge_with_one_empty_source_passes_the_other_through() {
    let a = VecSource::new(Vec::<i32>::new());
    let b = VecSource::new(vec![4, 5]);
    let m = Merge::new(a, b);
    let (col, status) = m.exec(Collector::new(), 1000);
    assert!(matches!(status, ExecStatus::Done));
    assert!(col.fin);
    let out = col.into_vec();
    assert_eq!(out, vec![Either::Right(4), Either::Right(5)]);
}

#[test]
fn merge_of_two_empty_sources_ends_at_once() {
    let a = VecSource::new(Vec::<i32>::new());
    let b = VecSource::new(Vec::<i32>::new());
    let m = Merge::new(a, b);
    let (col, status) = m.exec(Collector::new(), 1000);
    assert!(matches!(status, ExecStatus::Done));
    assert!(col.fin);
    assert_eq!(col.into_vec().len(), 0);
}

#[test]
fn merge_stops_after_second_item_when_consumer_says_so() {
    let a = VecSource::new(vec![1, 2, 3]);
    let b = VecSource::new(vec![4, 5, 6]);
    let m = Merge::new(a, b);
    let (col, status) = m.exec(Collector::with_limit(2), 1000);
    assert!(matches!(status, ExecStatus::Stopped));
    assert!(!col.fin, "an early stop must not deliver the end-of-sequence signal");
    assert_eq!(col.into_vec().len(), 2);
}

#[test]
fn merge_with_uneven_sources_completes() {
    let a = VecSource::new(vec![10]);
    let b = VecSource::new(vec![20, 21, 22, 23, 24]);
    let m = Merge::new(a, b);
    let (col, status) = m.exec(Collector::new(), 1000);
    assert!(matches!(status, ExecStatus::Done));
    let out = col.into_vec();
    assert_eq!(out.len(), 6);
    let (lefts, rights) = split_tags(out);
    assert_eq!(lefts, vec![10]);
    assert_eq!(rights, vec![20, 21, 22, 23, 24]);
}

#[test]
fn merge_runs_out_of_fuel_without_losing_order() {
    let a = VecSource::new(vec![1, 2, 3]);
    let b = VecSource::new(vec![4, 5, 6]);
    let m = Merge::new(a, b);
    let (col, status) = m.exec(Collector::new(), 7);
    assert!(matches!(status, ExecStatus::OutOfFuel));
    assert!(!col.fin);
    let (lefts, rights) = split_tags(col.into_vec());
    assert!(vec![1, 2, 3].starts_with(&lefts));
    assert!(vec![4, 5, 6].starts_with(&rights));
}

#[test]
fn pipe_slot_alternates_between_empty_and_full() {
    let mut p: OnePipeInner<i32> = OnePipeInner::new();
    assert!(matches!(p.get(0), Poll::Pending));
    assert_eq!(p.waker, Some(0), "a consumer blocked on an empty slot is recorded");
    assert!(p.put(7, 1).is_none());
    assert!(p.waker.is_none(), "a successful transition clears the recorded waiter");
    assert_eq!(p.put(8, 1), Some(8), "a put against a full slot hands the item back");
    assert_eq!(p.waker, Some(1), "the refused producer is recorded as the waiter");
    assert!(matches!(p.get(0), Poll::Ready(7)));
    assert!(matches!(p.get(0), Poll::Pending));
}
