//! Deterministic tests of the registry and the threshold check, with
//! hand-built fingerprints standing in for captured call chains.

use assert_infrequent::enforce;
use assert_infrequent::fingerprint::Fingerprint;
use assert_infrequent::registry::Registry;
use assert_infrequent::FrequencyExceeded;

fn site(frames: &[usize]) -> Fingerprint {
    Fingerprint::new(frames.to_vec())
}

#[test]
fn counts_accumulate_per_site() {
    let mut registry = Registry::new();

    for expected in 1..=5usize {
        let count = registry.record_and_get(site(&[10, 20, 30]));
        assert_eq!(count, expected);
    }
}

#[test]
fn first_hit_counts_one() {
    let mut registry = Registry::new();

    assert_eq!(registry.record_and_get(site(&[1])), 1);
    assert_eq!(registry.record_and_get(site(&[2])), 1);
    assert_eq!(registry.record_and_get(site(&[])), 1);
}

#[test]
fn sites_keep_independent_counters() {
    let mut registry = Registry::new();

    // Exhaust a budget of one at the first site...
    assert!(enforce(registry.record_and_get(site(&[1, 2])), 1).is_ok());
    assert!(enforce(registry.record_and_get(site(&[1, 2])), 1).is_err());

    // ...the second site's budget is untouched.
    assert!(enforce(registry.record_and_get(site(&[2, 1])), 1).is_ok());
}

#[test]
fn order_of_frames_distinguishes_sites() {
    let mut registry = Registry::new();

    assert_eq!(registry.record_and_get(site(&[1, 2, 3])), 1);
    assert_eq!(registry.record_and_get(site(&[3, 2, 1])), 1);
    assert_eq!(registry.record_and_get(site(&[1, 2])), 1);
    assert_eq!(registry.record_and_get(site(&[1, 2, 3])), 2);
}

#[test]
fn within_limit_never_fails() {
    let mut registry = Registry::new();

    for _ in 0..5 {
        let count = registry.record_and_get(site(&[7]));
        assert!(enforce(count, 5).is_ok());
    }
}

#[test]
fn next_call_over_limit_fails() {
    let mut registry = Registry::new();

    for _ in 0..3 {
        assert!(enforce(registry.record_and_get(site(&[7])), 3).is_ok());
    }
    let e = enforce(registry.record_and_get(site(&[7])), 3).unwrap_err();
    assert_eq!(e, FrequencyExceeded { count: 4, limit: 3 });
}

#[test]
fn exactly_limit_many_hits_pass() {
    let mut registry = Registry::new();
    let mut successes = 0;
    let mut failures = 0;

    for _ in 0..5 {
        match enforce(registry.record_and_get(site(&[40, 41])), 3) {
            Ok(()) => successes += 1,
            Err(_) => failures += 1,
        }
    }

    assert_eq!(successes, 3);
    assert_eq!(failures, 2);
}

#[test]
fn enforce_compares_count_and_limit() {
    assert!(enforce(0, 0).is_ok());
    assert!(enforce(5, 5).is_ok());
    assert_eq!(enforce(1, 0).unwrap_err(), FrequencyExceeded { count: 1, limit: 0 });
    assert_eq!(enforce(6, 5).unwrap_err(), FrequencyExceeded { count: 6, limit: 5 });
}

#[test]
fn matching_is_element_wise() {
    let a = site(&[1, 2, 3]);
    let b = site(&[1, 2, 3]);
    let c = site(&[3, 2, 1]);
    let d = site(&[1, 2]);

    assert!(a.matches(&b));
    assert!(b.matches(&a));
    assert!(!a.matches(&c));
    assert!(!a.matches(&d));
    assert!(site(&[]).matches(&site(&[])));
}
