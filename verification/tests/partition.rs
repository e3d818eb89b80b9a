use triage_seeder::partition::{partition, provisional_allocation, reconcile, PartitionError};

#[test]
fn scenario_420_beds_rounding_drift() {
    // Weights 3, 8, 25, 25, 30 (hundredths; they sum to 91) over 420
    // beds: the rounded ideals sum to 419, and reconciliation adds the
    // missing bed to the last category.
    let weights = vec![3, 8, 25, 25, 30];
    let provisional = provisional_allocation(420, &weights);
    assert_eq!(provisional, vec![14, 37, 115, 115, 138]);
    let alloc = partition(420, &weights).unwrap();
    assert_eq!(alloc, vec![14, 37, 115, 115, 139]);
    assert_eq!(alloc.iter().map(|&b| b as u64).sum::<u64>(), 420);
}

#[test]
fn conservation_and_minimum_presence() {
    let vectors: Vec<Vec<u32>> = vec![
        vec![3, 8, 25, 25, 30],
        vec![1, 1, 1],
        vec![100, 1],
        vec![7],
        vec![2, 90, 2, 2, 2, 2],
    ];
    for weights in &vectors {
        let n = weights.len() as u32;
        for total in n..(n + 120) {
            let alloc = partition(total, weights).unwrap();
            assert_eq!(alloc.len(), weights.len());
            assert_eq!(alloc.iter().map(|&b| b as u64).sum::<u64>(), total as u64);
            assert!(alloc.iter().all(|&b| b >= 1));
        }
    }
}

#[test]
fn result_length_matches_weights() {
    for len in 1..12usize {
        let weights: Vec<u32> = (1..=len as u32).collect();
        let alloc = partition(100, &weights).unwrap();
        assert_eq!(alloc.len(), len);
    }
}

#[test]
fn monotonic_conservation() {
    // Raising the total by one raises the sum of the partition by
    // exactly one.
    let weights = vec![3, 8, 25, 25, 30];
    let mut prev: u64 = partition(5, &weights)
        .unwrap()
        .iter()
        .map(|&b| b as u64)
        .sum();
    for total in 6..300u32 {
        let sum: u64 = partition(total, &weights)
            .unwrap()
            .iter()
            .map(|&b| b as u64)
            .sum();
        assert_eq!(sum, prev + 1);
        prev = sum;
    }
}

#[test]
fn exact_fit_yields_all_ones() {
    let weights = vec![3, 8, 25, 25, 30];
    assert_eq!(partition(5, &weights).unwrap(), vec![1, 1, 1, 1, 1]);
    let uneven = vec![99, 1, 1, 1];
    assert_eq!(partition(4, &uneven).unwrap(), vec![1, 1, 1, 1]);
}

#[test]
fn degenerate_total_below_category_count() {
    // Three units over five categories: the minimum-of-one rule is
    // relaxed, and the first three categories get one unit each.
    let weights = vec![3, 8, 25, 25, 30];
    assert_eq!(partition(3, &weights).unwrap(), vec![1, 1, 1, 0, 0]);
    assert_eq!(partition(0, &weights).unwrap(), vec![0, 0, 0, 0, 0]);
}

#[test]
fn rejects_empty_weights_with_positive_total() {
    let empty: Vec<u32> = vec![];
    assert_eq!(partition(1, &empty), Err(PartitionError::EmptyWeights));
    assert_eq!(partition(400, &empty), Err(PartitionError::EmptyWeights));
    // Zero capacity over zero categories is trivially satisfiable.
    assert_eq!(partition(0, &empty), Ok(vec![]));
}

#[test]
fn rejects_all_zero_weights_with_positive_total() {
    let zeros = vec![0, 0, 0];
    assert_eq!(partition(7, &zeros), Err(PartitionError::ZeroWeightSum));
    assert_eq!(partition(0, &zeros), Ok(vec![0, 0, 0]));
}

#[test]
fn zero_weight_entries_still_get_minimum_presence() {
    // A single zero weight rounds to zero and is forced up to one.
    let weights = vec![0, 10];
    let alloc = partition(10, &weights).unwrap();
    assert_eq!(alloc.len(), 2);
    assert_eq!(alloc[0] + alloc[1], 10);
    assert!(alloc[0] >= 1);
}

#[test]
fn reconcile_is_deterministic() {
    let provisional = vec![14, 37, 115, 115, 138];
    let first = reconcile(provisional.clone(), 420);
    let second = reconcile(provisional.clone(), 420);
    assert_eq!(first, second);
    assert_eq!(first, vec![14, 37, 115, 115, 139]);
}

#[test]
fn reconcile_wraps_in_reverse_order() {
    // A deficit of seven over three categories: two full reverse passes
    // and one extra unit for the last category.
    assert_eq!(reconcile(vec![1, 1, 1], 10), vec![3, 3, 4]);
}

#[test]
fn reconcile_decrements_in_reverse_without_dropping_below_one() {
    // A surplus of four: the last category gives one bed, the middle one
    // is already at the minimum, and the first gives the remaining three.
    assert_eq!(reconcile(vec![5, 1, 2], 4), vec![2, 1, 1]);
}
