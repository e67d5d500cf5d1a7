use hyetograph::distribution::{arrange, target_position};
use hyetograph::types::DistributionPattern;

const INCREMENTS: [f64; 12] = [
    141.179, 68.369, 46.819, 35.957, 29.354, 24.900, 21.684, 19.249, 17.339, 15.799, 14.530,
    13.465,
];

const T: f64 = 10.0;

fn increment_bits() -> Vec<u64> {
    INCREMENTS.iter().map(|v| v.to_bits()).collect()
}

fn time_bits(t: f64, nt: usize) -> Vec<u64> {
    (1..=nt).map(|i| (t * i as f64).to_bits()).collect()
}

#[test]
fn front_pattern_places_descending_from_start() {
    let result = arrange(&increment_bits(), DistributionPattern::Front, &time_bits(T, 12));
    let expected = [
        141.179, 68.369, 46.819, 35.957, 29.354, 24.900, 21.684, 19.249, 17.339, 15.799,
        14.530, 13.465,
    ];

    assert_eq!(result.len(), 12);
    for (i, (entry, exp)) in result.iter().zip(expected.iter()).enumerate() {
        assert_eq!(f64::from_bits(entry.time_minutes), T * (i + 1) as f64);
        let intensity = f64::from_bits(entry.intensity);
        assert!(
            (intensity - exp).abs() < 1e-10,
            "pos {}: expected {}, got {}",
            i,
            exp,
            intensity
        );
    }
}

#[test]
fn center_pattern_matches_vba_case2() {
    let result = arrange(&increment_bits(), DistributionPattern::Center, &time_bits(T, 12));
    let expected = [
        13.465, 15.799, 19.249, 24.900, 35.957, 68.369, 141.179, 46.819, 29.354, 21.684,
        17.339, 14.530,
    ];

    assert_eq!(result.len(), 12);
    for (i, (entry, exp)) in result.iter().zip(expected.iter()).enumerate() {
        assert_eq!(f64::from_bits(entry.time_minutes), T * (i + 1) as f64);
        let intensity = f64::from_bits(entry.intensity);
        assert!(
            (intensity - exp).abs() < 1e-10,
            "pos {}: expected {}, got {}",
            i,
            exp,
            intensity
        );
    }
}

#[test]
fn rear_pattern_places_ascending_from_start() {
    let result = arrange(&increment_bits(), DistributionPattern::Rear, &time_bits(T, 12));
    let expected = [
        13.465, 14.530, 15.799, 17.339, 19.249, 21.684, 24.900, 29.354, 35.957, 46.819,
        68.369, 141.179,
    ];

    assert_eq!(result.len(), 12);
    for (i, (entry, exp)) in result.iter().zip(expected.iter()).enumerate() {
        assert_eq!(f64::from_bits(entry.time_minutes), T * (i + 1) as f64);
        let intensity = f64::from_bits(entry.intensity);
        assert!(
            (intensity - exp).abs() < 1e-10,
            "pos {}: expected {}, got {}",
            i,
            exp,
            intensity
        );
    }
}

#[test]
fn sum_is_preserved_across_all_patterns() {
    let original_sum: f64 = INCREMENTS.iter().sum();

    for pattern in [
        DistributionPattern::Front,
        DistributionPattern::Center,
        DistributionPattern::Rear,
    ] {
        let result = arrange(&increment_bits(), pattern, &time_bits(T, 12));
        let arranged_sum: f64 = result.iter().map(|e| f64::from_bits(e.intensity)).sum();
        assert!(
            (original_sum - arranged_sum).abs() < 1e-10,
            "Pattern {:?}: sum {} != original {}",
            pattern,
            arranged_sum,
            original_sum
        );
    }
}

#[test]
fn time_minutes_is_ascending() {
    for pattern in [
        DistributionPattern::Front,
        DistributionPattern::Center,
        DistributionPattern::Rear,
    ] {
        let result = arrange(&increment_bits(), pattern, &time_bits(T, 12));
        for i in 1..result.len() {
            assert!(
                f64::from_bits(result[i].time_minutes)
                    > f64::from_bits(result[i - 1].time_minutes)
            );
        }
    }
}

#[test]
fn arrange_is_permutation_of_input() {
    for pattern in [
        DistributionPattern::Front,
        DistributionPattern::Center,
        DistributionPattern::Rear,
    ] {
        let result = arrange(&increment_bits(), pattern, &time_bits(T, 12));
        let mut got: Vec<f64> = result.iter().map(|e| f64::from_bits(e.intensity)).collect();
        let mut expected = INCREMENTS.to_vec();
        got.sort_by(|x, y| x.partial_cmp(y).unwrap());
        expected.sort_by(|x, y| x.partial_cmp(y).unwrap());
        assert_eq!(got, expected, "Pattern {:?} altered a value", pattern);
    }
}

#[test]
fn placement_is_bijective_for_small_block_counts() {
    for pattern in [
        DistributionPattern::Front,
        DistributionPattern::Center,
        DistributionPattern::Rear,
    ] {
        for nt in 1..=50usize {
            let mut hit = vec![false; nt];
            for j in 0..nt {
                let pos = target_position(pattern, nt, j);
                assert!(pos < nt, "pattern {:?}, nt {}: position {} out of range", pattern, nt, pos);
                assert!(
                    !hit[pos],
                    "pattern {:?}, nt {}: position {} written twice",
                    pattern, nt, pos
                );
                hit[pos] = true;
            }
            assert!(
                hit.iter().all(|&h| h),
                "pattern {:?}, nt {}: a position was left unwritten",
                pattern, nt
            );
        }
    }
}

#[test]
fn center_pattern_handles_tiny_block_counts() {
    let one: Vec<u64> = vec![(5.0f64).to_bits()];
    let result = arrange(&one, DistributionPattern::Center, &time_bits(T, 1));
    assert_eq!(result.len(), 1);
    assert_eq!(f64::from_bits(result[0].intensity), 5.0);

    let two: Vec<u64> = vec![(5.0f64).to_bits(), (3.0f64).to_bits()];
    let result = arrange(&two, DistributionPattern::Center, &time_bits(T, 2));
    assert_eq!(result.len(), 2);
    assert_eq!(f64::from_bits(result[0].intensity), 3.0);
    assert_eq!(f64::from_bits(result[1].intensity), 5.0);
}

#[test]
fn arrange_handles_an_empty_storm() {
    for pattern in [
        DistributionPattern::Front,
        DistributionPattern::Center,
        DistributionPattern::Rear,
    ] {
        let result = arrange(&Vec::new(), pattern, &Vec::new());
        assert!(result.is_empty());
    }
}
