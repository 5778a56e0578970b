use num_bigint::BigInt;
use rand::rngs::StdRng;
use rand::SeedableRng;
use rgeometry::convex::ConvexPolygon;
use rgeometry::partition::{
    pairwise_difference, partition_from_breakpoints, random_between, random_between_zero,
    random_vectors,
};

#[test]
fn partition_sums_to_max() {
    let mut rng = StdRng::seed_from_u64(7);
    for &(n, max) in &[(1usize, 2usize), (3, 4), (10, 100), (5, 6), (7, 1000)] {
        let parts = random_between(n, max, &mut rng);
        assert_eq!(parts.len(), n);
        assert!(parts.iter().all(|&p| p >= 1));
        assert_eq!(parts.iter().sum::<usize>(), max);
    }
}

#[test]
fn partition_without_room_is_ones() {
    let mut rng = StdRng::seed_from_u64(8);
    let parts = random_between(5, 3, &mut rng);
    assert_eq!(parts, vec![1; 5]);
    let parts = random_between(4, 4, &mut rng);
    assert_eq!(parts, vec![1; 4]);
    assert_eq!(parts.iter().sum::<usize>(), 4);
}

#[test]
fn partition_from_given_breakpoints() {
    assert_eq!(partition_from_breakpoints(&vec![2, 3, 7], 10), vec![2, 1, 4, 3]);
    assert_eq!(partition_from_breakpoints(&vec![], 5), vec![5]);
}

#[test]
fn zero_sum_partition_sums_to_zero() {
    let mut rng = StdRng::seed_from_u64(9);
    for &(n, max) in &[(10usize, 100usize), (3, 2), (1, 50)] {
        let parts = random_between_zero(n, max, &mut rng);
        assert_eq!(parts.len(), n);
        assert_eq!(parts.iter().sum::<BigInt>(), BigInt::from(0));
    }
}

#[test]
fn differences_are_exact() {
    let d = pairwise_difference(&vec![1, 5, 2], &vec![3, 1, 2]);
    assert_eq!(d, vec![BigInt::from(-2), BigInt::from(4), BigInt::from(0)]);
}

#[test]
fn random_vectors_sum_to_zero() {
    let mut rng = StdRng::seed_from_u64(10);
    let vs = random_vectors(12, 1000, &mut rng);
    assert_eq!(vs.len(), 12);
    assert_eq!(vs.iter().map(|v| v.x.clone()).sum::<BigInt>(), BigInt::from(0));
    assert_eq!(vs.iter().map(|v| v.y.clone()).sum::<BigInt>(), BigInt::from(0));
}

#[test]
fn random_polygon_has_requested_size() {
    let mut rng = StdRng::seed_from_u64(11);
    for &n in &[3usize, 5, 20] {
        let c = ConvexPolygon::random(n, 1000, &mut rng);
        assert_eq!(c.polygon().points().len(), n);
        assert_eq!(c.polygon().boundary(), n);
        assert!(c.polygon().validate().is_ok());
    }
}

#[test]
fn random_polygon_upgrades_small_counts() {
    let mut rng = StdRng::seed_from_u64(12);
    let c = ConvexPolygon::random(1, 1000, &mut rng);
    assert_eq!(c.polygon().points().len(), 3);
}
