//! The pass-through adapters: transform, filter, the pollable cursors, and
//! the two pull-based merges.

use fairmerge::afit::{async_iter_from_iter, AsyncIterator};
use fairmerge::poll::{AsyncIteratorExt, VecSource};
use fairmerge::push::filter::filter;
use fairmerge::push::{from_iter, Collector, ExecStatus, Stream};
use fairmerge::{Either, Poll};

#[test]
fn simple_map() {
    let iter = async_iter_from_iter(vec![0, 1, 2]);
    let mut mapped = fairmerge::afit::map::map(iter, |x: i32| x + 1);
    let (col, exhausted) = mapped.for_each(Collector::new(), 100);
    assert!(exhausted);
    assert_eq!(col.into_vec(), vec![1, 2, 3]);
}

#[test]
fn simple_filter() {
    let iter = from_iter((0..10).collect::<Vec<i32>>());
    let even = filter(iter, |x: &i32| x % 2 == 0);
    let (col, status) = even.for_each(Collector::new(), 100);
    assert!(matches!(status, ExecStatus::Done));
    assert_eq!(col.into_vec(), vec![0, 2, 4, 6, 8]);
}

#[test]
fn filter_respects_an_early_stop() {
    let iter = from_iter((0..10).collect::<Vec<i32>>());
    let even = filter(iter, |x: &i32| x % 2 == 0);
    let (col, status) = even.exec(Collector::with_limit(2), 100);
    assert!(matches!(status, ExecStatus::Stopped));
    assert!(!col.fin);
    assert_eq!(col.into_vec(), vec![0, 2]);
}

#[test]
fn simple_merge() {
    let a = VecSource::new(vec![1, 2, 3]);
    let b = VecSource::new(vec![4, 5, 6]);
    let mut m = fairmerge::poll::merge::merge(a, b);
    let mut result = vec![];
    loop {
        match m.poll_next() {
            Poll::Ready(Some(Either::Left(x))) => result.push(x),
            Poll::Ready(Some(Either::Right(y))) => result.push(y),
            Poll::Ready(None) => break,
            Poll::Pending => {}
        }
    }
    assert_eq!(result.len(), 6);
    for i in [1, 2, 3, 4, 5, 6] {
        assert!(result.contains(&i), "result does not contain {i}");
    }
}

#[test]
fn poll_merge_keeps_each_sources_order() {
    let a = VecSource::new(vec![1, 2, 3]);
    let b = VecSource::new(vec![4, 5, 6]);
    let mut m = fairmerge::poll::merge::merge(a, b);
    let mut lefts = vec![];
    let mut rights = vec![];
    loop {
        match m.poll_next() {
            Poll::Ready(Some(Either::Left(x))) => lefts.push(x),
            Poll::Ready(Some(Either::Right(y))) => rights.push(y),
            Poll::Ready(None) => break,
            Poll::Pending => {}
        }
    }
    assert_eq!(lefts, vec![1, 2, 3]);
    assert_eq!(rights, vec![4, 5, 6]);
}

#[test]
fn afit_merge_delivers_both_sources_in_order() {
    let a = async_iter_from_iter(vec![1, 2, 3]);
    let b = async_iter_from_iter(vec![4, 5, 6]);
    let mut m = fairmerge::afit::merge::merge(a, b);
    let mut lefts = vec![];
    let mut rights = vec![];
    while let Some(item) = m.next() {
        match item {
            Either::Left(x) => lefts.push(x),
            Either::Right(y) => rights.push(y),
        }
    }
    assert_eq!(lefts, vec![1, 2, 3]);
    assert_eq!(rights, vec![4, 5, 6]);
}

#[test]
fn vec_source_answers_through_the_extension_trait() {
    let mut s = VecSource::new(vec![9, 8]);
    assert!(matches!(s.next(10), Poll::Ready(Some(9))));
    assert!(matches!(s.next(10), Poll::Ready(Some(8))));
    assert!(matches!(s.next(10), Poll::Ready(None)));
    assert!(matches!(s.next(10), Poll::Ready(None)));
}

#[test]
fn iter_stream_delivers_everything_then_the_end_signal() {
    let s = from_iter(vec![5, 6, 7]);
    let (col, status) = s.exec(Collector::new(), 0);
    assert!(matches!(status, ExecStatus::Done));
    assert!(col.fin);
    assert_eq!(col.into_vec(), vec![5, 6, 7]);
}

#[test]
fn iter_stream_stops_at_the_consumers_limit() {
    let s = from_iter(vec![5, 6, 7]);
    let (col, status) = s.exec(Collector::with_limit(1), 0);
    assert!(matches!(status, ExecStatus::Stopped));
    assert!(!col.fin);
    assert_eq!(col.into_vec(), vec![5]);
}

#[test]
fn map_over_an_empty_cursor_yields_nothing() {
    let iter = async_iter_from_iter(Vec::<i32>::new());
    let mut mapped = fairmerge::afit::map::map(iter, |x: i32| x + 1);
    assert!(mapped.next().is_none());
}

#[test]
fn a_pollable_cursor_can_feed_a_push_consumer() {
    let s = fairmerge::push::from_async_iter(VecSource::new(vec![3, 1, 4]));
    let (col, status) = s.exec(Collector::new(), 100);
    assert!(matches!(status, ExecStatus::Done));
    assert!(col.fin);
    assert_eq!(col.into_vec(), vec![3, 1, 4]);
}

#[test]
fn poll_map_transforms_each_answer() {
    let mut m = fairmerge::poll::map::map(VecSource::new(vec![1, 2]), |x: i32| x * 10);
    assert!(matches!(m.poll_next(), Poll::Ready(Some(10))));
    assert!(matches!(m.poll_next(), Poll::Ready(Some(20))));
    assert!(matches!(m.poll_next(), Poll::Ready(None)));
}

#[test]
fn poll_merge_alternates_the_side_examined_first() {
    let a = VecSource::new(vec![1, 2]);
    let b = VecSource::new(vec![4, 5]);
    let mut m = fairmerge::poll::merge::merge(a, b);
    // with both sides always ready, the alternation bit hands the turns out
    // strictly in turns: neither side can win twice in a row
    assert!(matches!(m.poll_next(), Poll::Ready(Some(Either::Left(1)))));
    assert!(matches!(m.poll_next(), Poll::Ready(Some(Either::Right(4)))));
    assert!(matches!(m.poll_next(), Poll::Ready(Some(Either::Left(2)))));
    assert!(matches!(m.poll_next(), Poll::Ready(Some(Either::Right(5)))));
}

#[test]
fn for_each_respects_the_consumers_stop() {
    let mut iter = async_iter_from_iter(vec![1, 2, 3, 4]);
    let (col, exhausted) = iter.for_each(Collector::with_limit(3), 100);
    assert!(!exhausted);
    assert_eq!(col.into_vec(), vec![1, 2, 3]);
}

#[test]
fn poll_merge_exhaustion_is_terminal() {
    let a = VecSource::new(vec![1]);
    let b = VecSource::new(Vec::<i32>::new());
    let mut m = fairmerge::poll::merge::merge(a, b);
    assert!(matches!(m.poll_next(), Poll::Ready(Some(Either::Left(1)))));
    assert!(matches!(m.poll_next(), Poll::Ready(None)));
    // once exhausted, every further attempt answers the same, at once
    assert!(matches!(m.poll_next(), Poll::Ready(None)));
    assert!(matches!(m.poll_next(), Poll::Ready(None)));
}

#[test]
fn afit_merge_exhaustion_is_terminal() {
    let a = async_iter_from_iter(vec![7]);
    let b = async_iter_from_iter(Vec::<i32>::new());
    let mut m = fairmerge::afit::merge::merge(a, b);
    assert!(matches!(m.next(), Some(Either::Left(7))));
    assert!(m.next().is_none());
    assert!(m.next().is_none());
}
