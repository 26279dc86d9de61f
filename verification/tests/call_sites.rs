//! Tests that drive the guard through real call-chain capture: each textual
//! call of `at_most` below is its own call site.

use std::hint::black_box;

use assert_infrequent::at_most;
use assert_infrequent::shared::SharedRegistry;

#[test]
fn it_works() {
    let registry = SharedRegistry::new();

    at_most(&registry, 1).unwrap();
    at_most(&registry, 1).unwrap();
    at_most(&registry, 1).unwrap();
    at_most(&registry, 3).unwrap();

    for _ in 0..5 {
        at_most(&registry, 5).unwrap();
    }
}

#[test]
#[should_panic]
fn never_call() {
    let registry = SharedRegistry::new();

    at_most(&registry, 0).unwrap();
}

#[test]
#[should_panic]
fn in_loop() {
    let registry = SharedRegistry::new();

    for _ in 0..black_box(5) {
        at_most(&registry, 4).unwrap();
    }
}

#[test]
fn same_site_twice() {
    let registry = SharedRegistry::new();
    let mut outcomes = Vec::new();

    for _ in 0..black_box(2) {
        outcomes.push(at_most(&registry, 1));
    }

    assert!(outcomes[0].is_ok());
    assert!(outcomes[1].is_err());
}

#[test]
fn five_times_within_five() {
    let registry = SharedRegistry::new();

    for _ in 0..black_box(5) {
        assert!(at_most(&registry, 5).is_ok());
    }
}

#[test]
fn zero_limit_fails_at_once() {
    let registry = SharedRegistry::new();

    let e = at_most(&registry, 0).unwrap_err();
    assert_eq!(e.count, 1);
    assert_eq!(e.limit, 0);
}

#[test]
fn four_calls_limit_three() {
    let registry = SharedRegistry::new();
    let mut successes = 0;
    let mut failures = 0;

    for _ in 0..black_box(4) {
        match at_most(&registry, 3) {
            Ok(()) => successes += 1,
            Err(e) => {
                assert_eq!(e.count, 4);
                assert_eq!(e.limit, 3);
                failures += 1;
            }
        }
    }

    assert_eq!(successes, 3);
    assert_eq!(failures, 1);
}

#[test]
fn distinct_sites_do_not_share_budget() {
    let registry = SharedRegistry::new();

    // This call site uses up its whole budget...
    let mut first_site = Vec::new();
    for _ in 0..black_box(3) {
        first_site.push(at_most(&registry, 2));
    }
    assert!(first_site[0].is_ok());
    assert!(first_site[1].is_ok());
    assert!(first_site[2].is_err());

    // ...and this one still has its own untouched.
    at_most(&registry, 2).unwrap();
}
