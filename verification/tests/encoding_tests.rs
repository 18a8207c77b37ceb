use decimal_array::encoding::{
    decode_i128, encode_i128, max_value_for_precision, min_value_for_precision,
};
use decimal_array::error::ArrowError;
use decimal_array::mutable::MutableDecimalArray;

#[test]
fn precision_bounds_samples() {
    assert_eq!(max_value_for_precision(1), 9);
    assert_eq!(min_value_for_precision(1), -9);
    assert_eq!(max_value_for_precision(2), 99);
    assert_eq!(min_value_for_precision(2), -99);
    assert_eq!(max_value_for_precision(10), 9_999_999_999);
    assert_eq!(min_value_for_precision(10), -9_999_999_999);
    assert_eq!(
        max_value_for_precision(37),
        9_999_999_999_999_999_999_999_999_999_999_999_999
    );
}

#[test]
fn precision_bounds_whole_table() {
    let mut power_of_ten: i128 = 1;
    for precision in 1..=37usize {
        power_of_ten *= 10;
        assert_eq!(max_value_for_precision(precision), power_of_ten - 1);
        assert_eq!(min_value_for_precision(precision), -(power_of_ten - 1));
    }
    assert_eq!(max_value_for_precision(38), i128::MAX);
    assert_eq!(min_value_for_precision(38), i128::MIN);
}

#[test]
fn encode_decode_round_trip() {
    let samples: [i128; 9] = [
        0,
        1,
        -1,
        1000,
        -1000,
        1_234_567_890_123_456_789,
        -1_234_567_890_123_456_789,
        i128::MAX,
        i128::MIN,
    ];
    for v in samples {
        let bytes = encode_i128(v);
        assert_eq!(bytes.len(), 16);
        assert_eq!(decode_i128(&bytes), v);
    }
}

#[test]
fn encode_is_little_endian_twos_complement() {
    let one = encode_i128(1);
    assert_eq!(one[0], 1);
    for k in 1..16 {
        assert_eq!(one[k], 0);
    }
    let minus_one = encode_i128(-1);
    for k in 0..16 {
        assert_eq!(minus_one[k], 0xff);
    }
    let v = encode_i128(0x0102);
    assert_eq!(v[0], 2);
    assert_eq!(v[1], 1);
}

#[test]
fn fixed_size_bytes_full_width() {
    let bytes = MutableDecimalArray::from_i128_to_fixed_size_bytes(258, 16).unwrap();
    assert_eq!(bytes, encode_i128(258));
}

#[test]
fn fixed_size_bytes_rejects_narrow_slots() {
    let r = MutableDecimalArray::from_i128_to_fixed_size_bytes(258, 4);
    assert!(matches!(r, Err(ArrowError::InvalidArgumentError(_))));
}

#[test]
fn fixed_size_bytes_rejects_wide_slots() {
    let r = MutableDecimalArray::from_i128_to_fixed_size_bytes(1, 17);
    assert!(matches!(r, Err(ArrowError::InvalidArgumentError(_))));
}
