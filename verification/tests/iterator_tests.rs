use decimal_array::decimal::DecimalArray;
use decimal_array::iterator::DecimalValuesIter;
use decimal_array::mutable::MutableDecimalArray;

fn build(elements: &[Option<i128>]) -> DecimalArray {
    let mut builder = MutableDecimalArray::new(elements.len(), 18, 2);
    for e in elements {
        builder.try_push(*e).unwrap();
    }
    *builder.as_box()
}

#[test]
fn values_iter_walks_forward() {
    let array = build(&[Some(1), Some(2), Some(3)]);
    let mut it = array.values_iter();
    assert_eq!(it.next(), Some(1));
    assert_eq!(it.next(), Some(2));
    assert_eq!(it.next(), Some(3));
    assert_eq!(it.next(), None);
    assert_eq!(it.next(), None);
}

#[test]
fn values_iter_walks_backward() {
    let array = build(&[Some(1), Some(2), Some(3)]);
    let mut it = array.values_iter();
    assert_eq!(it.next_back(), Some(3));
    assert_eq!(it.next_back(), Some(2));
    assert_eq!(it.next_back(), Some(1));
    assert_eq!(it.next_back(), None);
}

#[test]
fn values_iter_ends_never_cross() {
    let array = build(&[Some(1), Some(2), Some(3)]);
    let mut it = array.values_iter();
    assert_eq!(it.next(), Some(1));
    assert_eq!(it.next_back(), Some(3));
    assert_eq!(it.next(), Some(2));
    assert_eq!(it.next_back(), None);
    assert_eq!(it.next(), None);
}

#[test]
fn size_hint_is_exact() {
    let array = build(&[Some(1), Some(2), Some(3)]);
    let mut it = array.values_iter();
    assert_eq!(it.size_hint(), (3, Some(3)));
    it.next();
    assert_eq!(it.size_hint(), (2, Some(2)));
    it.next_back();
    assert_eq!(it.size_hint(), (1, Some(1)));
    it.next();
    assert_eq!(it.size_hint(), (0, Some(0)));
}

#[test]
fn iterator_symmetry() {
    let array = build(&[Some(4), Some(-5), Some(6), Some(-7)]);
    let forward = array.values_iter().collect_vec();
    let mut backward = array.values_iter().collect_back_vec();
    backward.reverse();
    assert_eq!(forward, backward);
    assert_eq!(forward, vec![4, -5, 6, -7]);
}

#[test]
fn values_iter_reads_null_slots_raw() {
    let array = build(&[Some(9), None]);
    let values = array.values_iter().collect_vec();
    assert_eq!(values, vec![9, 0]);
}

#[test]
fn zip_validity_yields_options() {
    let array = build(&[Some(9), None, Some(-3)]);
    let mut it = array.iter();
    assert_eq!(it.size_hint(), (3, Some(3)));
    assert_eq!(it.next(), Some(Some(9)));
    assert_eq!(it.next(), Some(None));
    assert_eq!(it.next(), Some(Some(-3)));
    assert_eq!(it.next(), None);
}

#[test]
fn fresh_iterator_over_empty_array() {
    let array = DecimalArray::new_empty(10, 2);
    let mut it = DecimalValuesIter::new(&array);
    assert_eq!(it.size_hint(), (0, Some(0)));
    assert_eq!(it.next(), None);
    assert_eq!(it.next_back(), None);
}
