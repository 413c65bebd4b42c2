use std::cell::Cell;
use std::time::Instant;

use memocache::cache::{memo, Cacher, FallibleCacher};

fn measure_time<A, B, F>(mut f: F, x: A) -> f32
where
    F: FnMut(A) -> B,
{
    let now = Instant::now();
    f(x);
    now.elapsed().as_secs_f32()
}

/// Burn a noticeable amount of time before answering, so that the cached
/// path is visibly faster than a fresh evaluation.
fn slow_less_than_1024(x: i32) -> bool {
    let mut acc: u64 = 0;
    for i in 0..50_000_000u64 {
        acc = acc.wrapping_add(i ^ (acc >> 3));
    }
    let _ = std::hint::black_box(acc);
    x < 1 << 10
}

#[test]
fn test_memoize() {
    let f = |x: i32| -> bool { slow_less_than_1024(x) };
    let mut f = memo(f);

    assert_eq!(f.call(2), true);
    assert!(measure_time(|x| f.call(x), 2) < 1f32);
}

#[test]
fn test_memoize_rand() {
    let f = |_| -> f64 { rand::random::<f64>() };
    let mut f = memo(f);

    assert_eq!(f.call(()), f.call(()));
}

#[test]
fn test_miss_evaluates_once() {
    let count = Cell::new(0u32);
    let f = |x: u64| -> u64 {
        count.set(count.get() + 1);
        x + 1
    };
    let mut c = Cacher::new(f);

    assert_eq!(c.call(7), 8);
    assert_eq!(c.call(7), 8);
    assert_eq!(c.call(7), 8);
    assert_eq!(count.get(), 1);
}

#[test]
fn test_distinct_keys_independent() {
    let count = Cell::new(0u32);
    let f = |x: u64| -> u64 {
        count.set(count.get() + 1);
        x * 10
    };
    let mut c = Cacher::new(f);

    assert_eq!(c.call(1), 10);
    assert_eq!(c.call(2), 20);
    assert_eq!(count.get(), 2);
    assert_eq!(c.call(1), 10);
    assert_eq!(c.call(2), 20);
    assert_eq!(count.get(), 2);
}

#[test]
fn test_failure_not_cached() {
    let count = Cell::new(0u32);
    let f = |x: u64| -> Result<u64, String> {
        count.set(count.get() + 1);
        if count.get() == 1 {
            Err(String::from("first try fails"))
        } else {
            Ok(x + 100)
        }
    };
    let mut c = FallibleCacher::new(f);

    assert_eq!(c.call(5), Err(String::from("first try fails")));
    assert_eq!(c.call(5), Ok(105));
    assert_eq!(count.get(), 2);
    assert_eq!(c.call(5), Ok(105));
    assert_eq!(count.get(), 2);
}

#[test]
fn test_fallible_success_cached() {
    let count = Cell::new(0u32);
    let f = |x: u64| -> Result<u64, String> {
        count.set(count.get() + 1);
        Ok(x * 2)
    };
    let mut c = FallibleCacher::new(f);

    assert_eq!(c.call(4), Ok(8));
    assert_eq!(c.call(4), Ok(8));
    assert_eq!(count.get(), 1);
}

#[test]
fn test_random_value_frozen() {
    let f = |_: u8| -> u64 { rand::random::<u64>() };
    let mut c = Cacher::new(f);

    let first = c.call(0);
    assert_eq!(c.call(0), first);
    assert_eq!(c.call(0), first);
}
