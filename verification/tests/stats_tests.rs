use simulation::state::RATE_SCALE;
use simulation::stats::{compute_gini, compute_nakamoto_coefficient, sort_stakes_desc, sum_stakes};

#[test]
fn sort_descending_basic() {
    let stakes: Vec<u64> = vec![5, 1, 4, 4, 9, 0];
    let sorted = sort_stakes_desc(&stakes);
    assert_eq!(sorted, vec![9, 5, 4, 4, 1, 0]);
}

#[test]
fn sort_descending_empty() {
    let stakes: Vec<u64> = vec![];
    let sorted = sort_stakes_desc(&stakes);
    assert!(sorted.is_empty());
}

#[test]
fn sum_of_stakes() {
    let stakes: Vec<u64> = vec![u64::MAX, u64::MAX, 1];
    let total = sum_stakes(&stakes);
    assert_eq!(total, (u64::MAX as u128) * 2 + 1);
}

#[test]
fn nakamoto_uniform_hundred() {
    // 100 equal stakes: 33 holders reach 33%, 50 reach 50%.
    let stakes: Vec<u64> = vec![1000; 100];
    let total = sum_stakes(&stakes);
    assert_eq!(total, 100_000);
    assert_eq!(compute_nakamoto_coefficient(&stakes, 33, 100, total), 33);
    assert_eq!(compute_nakamoto_coefficient(&stakes, 50, 100, total), 50);
}

#[test]
fn nakamoto_skewed() {
    let stakes: Vec<u64> = vec![40, 30, 20, 10];
    let total = sum_stakes(&stakes);
    assert_eq!(compute_nakamoto_coefficient(&stakes, 33, 100, total), 1);
    assert_eq!(compute_nakamoto_coefficient(&stakes, 50, 100, total), 2);
}

#[test]
fn nakamoto_empty_is_zero() {
    let stakes: Vec<u64> = vec![];
    assert_eq!(compute_nakamoto_coefficient(&stakes, 33, 100, 0), 0);
}

#[test]
fn nakamoto_unreachable_threshold_returns_full_count() {
    // A threshold above 100% is never reached: the full count stands.
    let stakes: Vec<u64> = vec![10, 10, 10];
    let total = sum_stakes(&stakes);
    assert_eq!(compute_nakamoto_coefficient(&stakes, 200, 100, total), 3);
}

#[test]
fn nakamoto_monotone_in_threshold() {
    let stakes: Vec<u64> = vec![55, 25, 15, 5];
    let total = sum_stakes(&stakes);
    let nc33 = compute_nakamoto_coefficient(&stakes, 33, 100, total);
    let nc50 = compute_nakamoto_coefficient(&stakes, 50, 100, total);
    assert!(nc50 >= nc33);
    assert!(1 <= nc33 && nc33 <= stakes.len());
}

#[test]
fn gini_equal_distribution_is_zero() {
    let stakes: Vec<u64> = vec![1000; 7];
    assert_eq!(compute_gini(&stakes), 0);
}

#[test]
fn gini_single_holder_approaches_one() {
    // One of four holds everything: (n-1)/n = 3/4.
    let stakes: Vec<u64> = vec![0, 100, 0, 0];
    assert_eq!(compute_gini(&stakes), 3 * RATE_SCALE / 4);
}

#[test]
fn gini_known_value() {
    // The classical Gini of 1,2,3,4 is 0.25.
    let stakes: Vec<u64> = vec![2, 1, 4, 3];
    assert_eq!(compute_gini(&stakes), RATE_SCALE / 4);
}

#[test]
fn gini_empty_and_zero_total() {
    let empty: Vec<u64> = vec![];
    assert_eq!(compute_gini(&empty), 0);
    let zeros: Vec<u64> = vec![0, 0, 0];
    assert_eq!(compute_gini(&zeros), 0);
}
