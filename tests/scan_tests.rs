use bitscan::{least_significant_bit, most_significant_bit, BitScanError, U128Wrapper};

fn msb(value: u128) -> Result<u8, BitScanError> {
    most_significant_bit(&U128Wrapper { value })
}

fn lsb(value: u128) -> Result<u8, BitScanError> {
    least_significant_bit(&U128Wrapper { value })
}

#[test]
fn test_most_significant_bit() {
    let input = U128Wrapper { value: 128 };
    assert_eq!(most_significant_bit(&input).unwrap(), 7);
}

#[test]
fn test_least_significant_bit() {
    let input = U128Wrapper { value: 16 };
    assert_eq!(least_significant_bit(&input).unwrap(), 4);
}

#[test]
fn test_invalid_input() {
    let input = U128Wrapper { value: 0 };
    assert!(most_significant_bit(&input).is_err());
    assert!(least_significant_bit(&input).is_err());
}

#[test]
fn zero_is_rejected_by_both_scans() {
    assert_eq!(msb(0), Err(BitScanError::ZeroInput));
    assert_eq!(lsb(0), Err(BitScanError::ZeroInput));
}

#[test]
fn single_bit_values_give_their_index() {
    for k in 0..128u32 {
        let value = 1u128 << k;
        assert_eq!(msb(value), Ok(k as u8));
        assert_eq!(lsb(value), Ok(k as u8));
    }
}

#[test]
fn all_bits_set() {
    assert_eq!(msb(u128::MAX), Ok(127));
    assert_eq!(lsb(u128::MAX), Ok(0));
}

#[test]
fn one_and_top_bit() {
    assert_eq!(msb(1), Ok(0));
    assert_eq!(lsb(1), Ok(0));
    assert_eq!(msb(1u128 << 127), Ok(127));
    assert_eq!(lsb(1u128 << 127), Ok(127));
}

#[test]
fn low_and_high_bit_set() {
    let value = (1u128 << 70) + 1;
    assert_eq!(msb(value), Ok(70));
    assert_eq!(lsb(value), Ok(0));
}

#[test]
fn lowest_bit_above_the_low_word() {
    assert_eq!(lsb(1u128 << 70), Ok(70));
    assert_eq!(lsb((1u128 << 100) | (1u128 << 64)), Ok(64));
    assert_eq!(msb((1u128 << 100) | (1u128 << 64)), Ok(100));
}

#[test]
fn mixed_values() {
    assert_eq!(msb(0b1011_0000), Ok(7));
    assert_eq!(lsb(0b1011_0000), Ok(4));
    assert_eq!(msb(3), Ok(1));
    assert_eq!(lsb(6), Ok(1));
    assert_eq!(msb(u64::MAX as u128), Ok(63));
    assert_eq!(lsb(u64::MAX as u128 + 1), Ok(64));
    assert_eq!(msb(u64::MAX as u128 + 1), Ok(64));
}

#[test]
fn highest_bit_grows_with_the_value() {
    let values: Vec<u128> = vec![1, 2, 3, 4, 7, 8, 255, 256, 1 << 40, (1 << 41) - 1, 1 << 90, u128::MAX];
    for w in values.windows(2) {
        assert!(w[0] <= w[1]);
        assert!(msb(w[0]).unwrap() <= msb(w[1]).unwrap());
    }
}

#[test]
fn index_points_at_a_set_bit() {
    let values: Vec<u128> = vec![1, 5, 96, 1 << 33, (1 << 77) + (1 << 12), u128::MAX - 1];
    for v in values {
        let hi = msb(v).unwrap();
        let lo = lsb(v).unwrap();
        assert_eq!((v >> hi) & 1, 1);
        assert_eq!(v >> hi, 1);
        assert_eq!((v >> lo) & 1, 1);
        assert_eq!(v & ((1u128 << lo) - 1), 0);
    }
}
