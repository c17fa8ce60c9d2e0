use windsock::builder::{calculate_ops, mean_time};
use windsock::percentile::{calculate_percentiles, Percentile, PERCENTILE_COUNT};

#[test]
fn empty_samples_give_zero_table() {
    assert_eq!(calculate_percentiles(vec![]), [0u64; 15]);
}

#[test]
fn single_sample_fills_every_point() {
    assert_eq!(calculate_percentiles(vec![42]), [42u64; 15]);
}

#[test]
fn hundred_samples_unsorted() {
    // 1..=100 in a scrambled order: the sort must happen before indexing.
    let times: Vec<u64> = (0..100u64).map(|i| (i * 37) % 100 + 1).collect();
    let table = calculate_percentiles(times);
    assert_eq!(table[Percentile::Min.index()], 1);
    assert_eq!(table[Percentile::P1.index()], 2);
    assert_eq!(table[Percentile::P2.index()], 3);
    assert_eq!(table[Percentile::P5.index()], 6);
    assert_eq!(table[Percentile::P10.index()], 11);
    assert_eq!(table[Percentile::P25.index()], 26);
    assert_eq!(table[Percentile::P50.index()], 51);
    assert_eq!(table[Percentile::P75.index()], 76);
    assert_eq!(table[Percentile::P90.index()], 91);
    assert_eq!(table[Percentile::P95.index()], 96);
    assert_eq!(table[Percentile::P98.index()], 99);
    assert_eq!(table[Percentile::P99.index()], 100);
    assert_eq!(table[Percentile::P99_9.index()], 100);
    assert_eq!(table[Percentile::P99_99.index()], 100);
    assert_eq!(table[Percentile::Max.index()], 100);
}

#[test]
fn table_is_sorted_and_spans_min_to_max() {
    let times = vec![900, 5, 77, 5, 1_000_000, 3, 64, 64, 12];
    let table = calculate_percentiles(times);
    for i in 1..PERCENTILE_COUNT {
        assert!(table[i - 1] <= table[i]);
    }
    assert_eq!(table[0], 3);
    assert_eq!(table[PERCENTILE_COUNT - 1], 1_000_000);
    // n = 9: P50 reads index floor(0.5 * 9) = 4 of [3,5,5,12,64,64,77,900,1000000].
    assert_eq!(table[Percentile::P50.index()], 64);
    // P25 reads index floor(0.25 * 9) = 2.
    assert_eq!(table[Percentile::P25.index()], 5);
}

#[test]
fn percentile_points_in_order() {
    let all = Percentile::all();
    assert_eq!(all.len(), 15);
    for (i, p) in all.iter().enumerate() {
        assert_eq!(p.index(), i);
    }
    assert_eq!(all[0], Percentile::Min);
    assert_eq!(all[14], Percentile::Max);
    assert_eq!(Percentile::P99_9.fraction(), 9990);
    assert_eq!(Percentile::Max.fraction(), 10000);
}

#[test]
fn percentile_names() {
    assert_eq!(Percentile::Min.name(), "Min   ");
    assert_eq!(Percentile::P10.name(), "10   ");
    assert_eq!(Percentile::P99_9.name(), "99.9 ");
    assert_eq!(Percentile::P99_99.name(), "99.99");
    assert_eq!(Percentile::Max.name(), "Max   ");
}

#[test]
fn ops_per_second_truncates_seconds() {
    assert_eq!(calculate_ops(100, 3_900_000_000), 33);
    assert_eq!(calculate_ops(100, 1_000_000_000), 100);
    assert_eq!(calculate_ops(0, 5_000_000_000), 0);
    assert_eq!(calculate_ops(7, 2_999_999_999), 3);
}

#[test]
fn mean_of_samples() {
    assert_eq!(mean_time(&vec![], 0), None);
    assert_eq!(mean_time(&vec![10, 20, 31], 61), Some(20));
    // Errored attempts add time but no sample.
    assert_eq!(mean_time(&vec![10], 40), Some(40));
}
