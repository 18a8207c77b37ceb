use decimal_array::bitmap::Bitmap;
use decimal_array::datatypes::DataType;
use decimal_array::decimal::DecimalArray;
use decimal_array::error::ArrowError;
use decimal_array::mutable::MutableDecimalArray;

fn build(precision: usize, scale: usize, elements: &[Option<i128>]) -> DecimalArray {
    let mut builder = MutableDecimalArray::new(elements.len(), precision, scale);
    for e in elements {
        builder.try_push(*e).unwrap();
    }
    *builder.as_box()
}

#[test]
fn push_read_round_trip() {
    let samples: [i128; 5] = [0, 7, -7, 9_999_999_999, -9_999_999_999];
    for v in samples {
        let mut builder = MutableDecimalArray::new(1, 10, 2);
        builder.try_push(Some(v)).unwrap();
        let array = *builder.as_box();
        assert_eq!(array.len(), 1);
        assert_eq!(array.value(0), v);
    }
}

#[test]
fn null_round_trip() {
    let mut builder = MutableDecimalArray::new(1, 10, 2);
    builder.try_push(None).unwrap();
    let array = *builder.as_box();
    assert_eq!(array.len(), 1);
    let validity = array.validity().expect("a pushed null materialises the bitmap");
    assert!(!validity.get(0));
    let mut it = array.iter();
    assert_eq!(it.next(), Some(None));
    assert_eq!(it.next(), None);
}

#[test]
fn range_rejection_leaves_length_unchanged() {
    let mut builder = MutableDecimalArray::new(4, 2, 0);
    builder.try_push(Some(99)).unwrap();
    let r = builder.try_push(Some(1000));
    assert!(matches!(r, Err(ArrowError::InvalidArgumentError(_))));
    let r = builder.try_push(Some(-1000));
    assert!(matches!(r, Err(ArrowError::InvalidArgumentError(_))));
    assert_eq!(builder.len(), 1);
    let array = *builder.as_box();
    assert_eq!(array.len(), 1);
    assert_eq!(array.value(0), 99);
}

#[test]
fn precision_one_rejects_ten() {
    let mut builder = MutableDecimalArray::new(1, 1, 0);
    let r = builder.try_push(Some(10));
    assert!(matches!(r, Err(ArrowError::InvalidArgumentError(_))));
    assert_eq!(builder.len(), 0);
    assert!(builder.try_push(Some(9)).is_ok());
}

#[test]
fn three_element_scenario() {
    let array = build(10, 2, &[Some(1000), None, Some(100)]);
    assert_eq!(array.len(), 3);
    assert_eq!(array.value(0), 1000);
    assert_eq!(array.value(2), 100);
    let validity = array.validity().expect("one slot is null");
    assert!(validity.get(0));
    assert!(!validity.get(1));
    assert!(validity.get(2));
    let mut it = array.iter();
    assert_eq!(it.collect_vec(), vec![Some(1000), None, Some(100)]);
}

#[test]
fn slice_invariants() {
    let array = build(10, 2, &[Some(1), Some(2), Some(3), None, Some(5)]);
    let sliced = array.slice(1, 3);
    assert_eq!(sliced.len(), 3);
    for i in 0..3 {
        assert_eq!(sliced.value(i), array.value(1 + i));
    }
    let validity = sliced.validity().expect("the null at index 3 is inside the window");
    assert!(validity.get(0));
    assert!(validity.get(1));
    assert!(!validity.get(2));
    let mut it = sliced.iter();
    assert_eq!(it.collect_vec(), vec![Some(2), Some(3), None]);
}

#[test]
fn slice_unchecked_matches_slice() {
    let array = build(10, 0, &[Some(4), Some(5), Some(6)]);
    let a = array.slice(1, 2);
    let b = array.slice_unchecked(1, 2);
    assert_eq!(a.len(), b.len());
    assert_eq!(a.value(0), b.value(0));
    assert_eq!(a.value(1), b.value(1));
}

#[test]
fn slice_of_slice_composes() {
    let array = build(10, 0, &[Some(0), Some(1), Some(2), Some(3), Some(4)]);
    let sliced = array.slice(1, 4).slice(1, 2);
    assert_eq!(sliced.len(), 2);
    assert_eq!(sliced.value(0), 2);
    assert_eq!(sliced.value(1), 3);
}

#[test]
fn new_empty_has_no_elements() {
    let array = DecimalArray::new_empty(5, 1);
    assert_eq!(array.len(), 0);
    assert_eq!(array.precision(), 5);
    assert_eq!(array.scale(), 1);
    assert_eq!(*array.data_type(), DataType::Decimal(5, 1));
    let mut it = array.iter();
    assert_eq!(it.next(), None);
}

#[test]
fn new_null_is_all_null() {
    let array = DecimalArray::new_null(7, 3, 4);
    assert_eq!(array.len(), 4);
    let validity = array.validity().expect("an all-null array has a bitmap");
    for i in 0..4 {
        assert!(!validity.get(i));
    }
    let mut it = array.iter();
    assert_eq!(it.collect_vec(), vec![None, None, None, None]);
}

#[test]
fn with_validity_replaces_bitmap() {
    let array = build(10, 2, &[Some(10), Some(20), Some(30)]);
    let bitmap = Bitmap::from_vec(vec![true, false, true]);
    assert_eq!(bitmap.len(), 3);
    let replaced = array.with_validity(Some(bitmap));
    let validity = replaced.validity().expect("a bitmap was supplied");
    assert!(validity.get(0));
    assert!(!validity.get(1));
    assert!(validity.get(2));
    assert_eq!(replaced.value(1), 20);
    let mut it = replaced.iter();
    assert_eq!(it.collect_vec(), vec![Some(10), None, Some(30)]);
    let cleared = array.with_validity(None);
    assert!(cleared.validity().is_none());
}

#[test]
fn no_nulls_means_no_bitmap() {
    let array = build(10, 2, &[Some(1), Some(2)]);
    assert!(array.validity().is_none());
    let mut it = array.iter();
    assert_eq!(it.collect_vec(), vec![Some(1), Some(2)]);
}

#[test]
fn clone_observes_same_elements() {
    let array = build(10, 2, &[Some(1), None]);
    let copy = array.clone();
    assert_eq!(copy.len(), array.len());
    assert_eq!(copy.value(0), array.value(0));
    let mut it = copy.iter();
    assert_eq!(it.collect_vec(), vec![Some(1), None]);
}

#[test]
fn builder_accessors() {
    let mut builder = MutableDecimalArray::new(8, 12, 4);
    assert_eq!(builder.precision(), 12);
    assert_eq!(builder.scale(), 4);
    assert_eq!(builder.data_type(), DataType::Decimal(12, 4));
    assert_eq!(builder.len(), 0);
    assert!(builder.validity().is_none());
    builder.push_null();
    assert_eq!(builder.len(), 1);
    let validity = builder.validity().expect("a null materialises the bitmap");
    assert!(!validity.get(0));
}

#[test]
fn push_null_after_values_marks_earlier_slots_valid() {
    let mut builder = MutableDecimalArray::new(0, 10, 2);
    builder.try_push(Some(5)).unwrap();
    builder.push_null();
    let array = *builder.as_box();
    let validity = array.validity().expect("bitmap exists after the null");
    assert!(validity.get(0));
    assert!(!validity.get(1));
}

#[test]
fn shrink_to_fit_keeps_contents() {
    let mut builder = MutableDecimalArray::new(100, 10, 2);
    builder.try_push(Some(42)).unwrap();
    builder.try_push(None).unwrap();
    builder.shrink_to_fit();
    assert_eq!(builder.len(), 2);
    let array = *builder.as_box();
    assert_eq!(array.value(0), 42);
    let validity = array.validity().unwrap();
    assert!(!validity.get(1));
}

#[test]
fn as_arc_and_as_box_snapshot_equally() {
    let mut builder = MutableDecimalArray::new(0, 10, 2);
    builder.try_push(Some(123)).unwrap();
    let boxed = builder.as_box();
    let shared = builder.as_arc();
    assert_eq!(boxed.len(), 1);
    assert_eq!(shared.len(), 1);
    assert_eq!(boxed.value(0), 123);
    assert_eq!(shared.value(0), 123);
    builder.try_push(Some(456)).unwrap();
    assert_eq!(builder.len(), 2);
    assert_eq!(boxed.len(), 1);
}

#[test]
fn precision_38_admits_extremes() {
    let mut builder = MutableDecimalArray::new(0, 38, 0);
    builder.try_push(Some(i128::MAX)).unwrap();
    builder.try_push(Some(i128::MIN)).unwrap();
    let array = *builder.as_box();
    assert_eq!(array.value(0), i128::MAX);
    assert_eq!(array.value(1), i128::MIN);
}

#[test]
fn out_of_range_error_reports_value_and_type() {
    let mut builder = MutableDecimalArray::new(0, 2, 1);
    match builder.try_push(Some(1000)) {
        Err(e) => {
            assert_eq!(
                e.message(),
                "The value of 1000 i128 is not compatible with Decimal(2,1)"
            );
        }
        Ok(()) => panic!("a value of four digits must not fit precision 2"),
    }
}

#[test]
fn out_of_range_error_reports_negative_values() {
    let mut builder = MutableDecimalArray::new(0, 3, 0);
    match builder.try_push(Some(-12345)) {
        Err(e) => {
            assert_eq!(
                e.message(),
                "The value of -12345 i128 is not compatible with Decimal(3,0)"
            );
        }
        Ok(()) => panic!("a value of five digits must not fit precision 3"),
    }
}
