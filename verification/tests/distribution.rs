use thermo_online::distribution::ClusterDistribution;

fn from_pairs(pairs: &[(u32, u32)]) -> ClusterDistribution {
    let mut d = ClusterDistribution::new();
    for &(size, count) in pairs {
        d.combine(&ClusterDistribution::singleton(size, count));
    }
    d
}

fn pairs_of(d: &ClusterDistribution) -> Vec<(u32, u32)> {
    (0..d.len()).map(|i| d.entry(i)).collect()
}

#[test]
fn merging_two_samples_adds_counts_size_by_size() {
    let mut a = from_pairs(&[(3, 2), (5, 1)]);
    let b = from_pairs(&[(3, 1), (4, 2)]);
    a.combine(&b);
    assert_eq!(pairs_of(&a), vec![(3, 3), (4, 2), (5, 1)]);
    assert_eq!(a.count(3), 3);
    assert_eq!(a.count(4), 2);
    assert_eq!(a.count(5), 1);
    assert_eq!(a.count(6), 0);
}

#[test]
fn new_distribution_lists_nothing() {
    let d = ClusterDistribution::new();
    assert_eq!(d.len(), 0);
    assert_eq!(d.count(1), 0);
}

#[test]
fn singleton_lists_one_size() {
    let d = ClusterDistribution::singleton(7, 4);
    assert_eq!(pairs_of(&d), vec![(7, 4)]);
    assert_eq!(d.count(7), 4);
    assert_eq!(d.count(8), 0);
}

#[test]
fn entries_come_out_in_ascending_order_of_size() {
    let d = from_pairs(&[(9, 1), (2, 5), (5, 3), (2, 1), (1, 1)]);
    assert_eq!(pairs_of(&d), vec![(1, 1), (2, 6), (5, 3), (9, 1)]);
}

#[test]
fn merge_is_commutative_on_samples() {
    let a = from_pairs(&[(1, 4), (3, 2), (8, 1)]);
    let b = from_pairs(&[(2, 7), (3, 5)]);
    let ab = a.try_combine(&b).unwrap();
    let ba = b.try_combine(&a).unwrap();
    assert_eq!(pairs_of(&ab), pairs_of(&ba));
    assert_eq!(pairs_of(&ab), vec![(1, 4), (2, 7), (3, 7), (8, 1)]);
}

#[test]
fn merge_is_associative_on_samples() {
    let a = from_pairs(&[(1, 4), (3, 2)]);
    let b = from_pairs(&[(2, 7), (3, 5)]);
    let c = from_pairs(&[(3, 1), (4, 4), (1, 1)]);
    let left = a.try_combine(&b).unwrap().try_combine(&c).unwrap();
    let right = a.try_combine(&b.try_combine(&c).unwrap()).unwrap();
    assert_eq!(pairs_of(&left), pairs_of(&right));
    assert_eq!(pairs_of(&left), vec![(1, 5), (2, 7), (3, 8), (4, 4)]);
}

#[test]
fn merging_with_the_empty_distribution_changes_nothing() {
    let a = from_pairs(&[(1, 4), (3, 2)]);
    let e = ClusterDistribution::new();
    assert_eq!(pairs_of(&a.try_combine(&e).unwrap()), vec![(1, 4), (3, 2)]);
    assert_eq!(pairs_of(&e.try_combine(&a).unwrap()), vec![(1, 4), (3, 2)]);
}

#[test]
fn try_combine_refuses_a_count_that_does_not_fit() {
    let a = from_pairs(&[(1, 4), (3, u32::MAX)]);
    let b = from_pairs(&[(3, 1)]);
    assert!(a.try_combine(&b).is_none());
    assert!(b.try_combine(&a).is_none());
    let c = from_pairs(&[(3, 0), (4, u32::MAX)]);
    assert_eq!(
        pairs_of(&a.try_combine(&c).unwrap()),
        vec![(1, 4), (3, u32::MAX), (4, u32::MAX)]
    );
}
