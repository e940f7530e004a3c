use bounds_check_bench::sums::{
    index_array, sum, sum_hoisted_checks, sum_indirectly, sum_indirectly_unchecked, sum_iter_sum,
    sum_unchecked,
};
use bounds_check_bench::xorshift::{random, XorShift32, SEED};

fn all_six(xs: &[u32], lo: usize, hi: usize) -> [u32; 6] {
    let indexes: Vec<usize> = (lo..hi).collect();
    [
        sum_indirectly(xs, &indexes),
        sum_indirectly_unchecked(xs, &indexes),
        sum(xs, lo, hi),
        sum_unchecked(xs, lo, hi),
        sum_hoisted_checks(xs, lo, hi),
        sum_iter_sum(xs, lo, hi),
    ]
}

#[test]
fn wraparound_at_u32_max() {
    let xs = vec![4294967295u32, 1];
    assert_eq!(all_six(&xs, 0, 2), [0; 6]);
}

#[test]
fn wraparound_keeps_low_bits() {
    let xs = vec![4294967295u32, 4294967295, 7];
    assert_eq!(all_six(&xs, 0, 3), [5; 6]);
}

#[test]
fn empty_range_sums_to_zero() {
    let xs = vec![3u32, 4, 5];
    for lo in 0..=3 {
        assert_eq!(all_six(&xs, lo, lo), [0; 6]);
    }
    assert_eq!(sum_indirectly(&xs, &[]), 0);
    assert_eq!(sum_indirectly_unchecked(&xs, &[]), 0);
}

#[test]
fn empty_input_sums_to_zero() {
    let xs: Vec<u32> = Vec::new();
    assert_eq!(all_six(&xs, 0, 0), [0; 6]);
}

#[test]
fn range_up_to_length_succeeds() {
    let xs = vec![10u32, 20, 30, 40];
    assert_eq!(all_six(&xs, 0, 4), [100; 6]);
    assert_eq!(all_six(&xs, 1, 4), [90; 6]);
    assert_eq!(all_six(&xs, 2, 3), [30; 6]);
}

#[test]
fn indirect_follows_index_order_and_repeats() {
    let xs = vec![1u32, 10, 100];
    let indexes = vec![2usize, 0, 2, 1];
    assert_eq!(sum_indirectly(&xs, &indexes), 211);
    assert_eq!(sum_indirectly_unchecked(&xs, &indexes), 211);
}

#[test]
fn index_array_counts_up() {
    assert_eq!(index_array(5), vec![0usize, 1, 2, 3, 4]);
    assert!(index_array(0).is_empty());
}

#[test]
fn generator_first_outputs() {
    let mut g = random();
    assert_eq!(
        g.take(10),
        vec![
            24873849u32, 1921449235, 163429281, 1743871077, 3284570427, 769573035, 1286640526,
            2263802158, 61506859, 855005484
        ]
    );
}

#[test]
fn generator_same_seed_same_sequence() {
    let mut a = XorShift32::new(SEED);
    let mut b = XorShift32::new(SEED);
    assert_eq!(a.take(1000), b.take(1000));
    let mut c = XorShift32::new(12345);
    let mut d = XorShift32::new(12345);
    let first: Vec<u32> = (0..50).map(|_| c.next_value()).collect();
    assert_eq!(first, d.take(50));
    assert_eq!(c.take(20), d.take(20));
}

#[test]
fn end_to_end_ten_values() {
    let xs = random().take(10);
    let mut r: u32 = 92;
    let mut expected: u32 = 0;
    for _ in 0..10 {
        r ^= r << 13;
        r ^= r >> 17;
        r ^= r << 5;
        expected = expected.wrapping_add(r);
    }
    assert_eq!(expected, 3784787339);
    assert_eq!(all_six(&xs, 0, 10), [expected; 6]);
}
