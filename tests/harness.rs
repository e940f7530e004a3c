use bounds_check_bench::harness::{fastest, run_benchmark, TRIALS};

#[test]
fn constant_callable_gives_identical_results() {
    let b = run_benchmark(|| 7u32);
    assert_eq!(TRIALS, 300);
    assert_eq!(b.results.len(), 300);
    assert!(b.results.iter().all(|&r| r == 7));
    assert_eq!(b.nanos.len(), 300);
    assert!(b.nanos.iter().all(|&t| b.fastest_nanos <= t));
    assert!(b.nanos.contains(&b.fastest_nanos));
}

#[test]
fn fastest_is_the_minimum() {
    assert_eq!(fastest(&[5u128, 3, 9]), 3);
    assert_eq!(fastest(&[4u128]), 4);
    assert_eq!(fastest(&[2u128, 2, 8, 1]), 1);
}
