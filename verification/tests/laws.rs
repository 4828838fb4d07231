use numvec::Slice;
use numvec::Vector;
use numvec::VectorError;

#[test]
fn full_has_requested_length_and_value() {
    let v = Vector::full(5, 7);
    assert_eq!(v.len(), 5);
    for x in v.into_vec() {
        assert_eq!(x, 7);
    }

    let empty: Vector<i32> = Vector::full(0, 7);
    assert_eq!(empty.len(), 0);
}

#[test]
fn range_half_open_scenarios() {
    let v = Vector::range(0, 5, 1).unwrap();
    assert_eq!(v.into_vec(), [0, 1, 2, 3, 4]);

    let bad = Vector::range(5, 3, 1);
    assert_eq!(bad, Err(VectorError::InvalidInterval));

    let equal = Vector::range(3, 3, 1);
    assert_eq!(equal, Err(VectorError::InvalidInterval));

    let stepped = Vector::range(1, 10, 3).unwrap();
    assert_eq!(stepped.into_vec(), [1, 4, 7]);
}

#[test]
fn vector_ops_reject_mismatched_lengths() {
    let long = Vector::from_vec(vec![3, 1, 4, 1, 5]);
    let short = Vector::from_vec(vec![3, 1, 4, 1]);

    let expected = Err(VectorError::LengthMismatch { left: 5, right: 4 });
    assert_eq!(long.add(&short), expected);
    assert_eq!(long.sub(&short), expected);
    assert_eq!(long.mul(&short), expected);

    let mut receiver = Vector::from_vec(vec![3, 1, 4, 1, 5]);
    assert_eq!(receiver.add_assign_vec(&short), Err(VectorError::LengthMismatch {
        left: 5,
        right: 4,
    }));
    // a failed in-place operation leaves the receiver untouched
    assert_eq!(receiver, Vector::from_vec(vec![3, 1, 4, 1, 5]));
    assert_eq!(receiver.sub_assign_vec(&short), Err(VectorError::LengthMismatch {
        left: 5,
        right: 4,
    }));
    assert_eq!(receiver.mul_assign_vec(&short), Err(VectorError::LengthMismatch {
        left: 5,
        right: 4,
    }));
    assert_eq!(receiver, Vector::from_vec(vec![3, 1, 4, 1, 5]));
}

#[test]
fn scalar_broadcast_from_either_side() {
    let v = Vector::from_vec(vec![5, 5, 5, 5]);
    assert_eq!(v.add_scalar(6), Vector::from_vec(vec![11, 11, 11, 11]));
    assert_eq!(Vector::scalar_add(6, &v), Vector::from_vec(vec![11, 11, 11, 11]));
    // left-scalar subtraction is scalar - element, not element - scalar
    assert_eq!(Vector::scalar_sub(6, &v), Vector::from_vec(vec![1, 1, 1, 1]));
}

#[test]
fn power_with_zero_exponent_gives_ones() {
    let x = Vector::from_vec(vec![3, 1, 4, 1]);
    assert_eq!(x.power(0), Vector::from_vec(vec![1, 1, 1, 1]));
}

#[test]
fn sum_of_empty_vector_is_zero() {
    let empty: Vector<i32> = Vector::from_vec(vec![]);
    assert_eq!(empty.sum(), 0);
}

#[test]
fn slice_copies_the_addressed_range() {
    let x = Vector::from_vec(vec![3, 1, 2, 3]);
    assert_eq!(x.slice(1..3).unwrap(), Vector::from_vec(vec![1, 2]));
}

#[test]
fn slicing_the_full_range_returns_an_equal_vector() {
    let x = Vector::from_vec(vec![3, 1, 2, 3]);
    let full = x.slice(0..x.len()).unwrap();
    assert!(full.equals(&x));
    assert_eq!(full, x);
}

#[test]
fn clone_is_equal_and_independently_mutable() {
    let original = Vector::from_vec(vec![3, 1, 4]);
    let mut copy = original.clone();
    assert!(copy.equals(&original));

    // mutating the clone must not affect the original
    copy.add_assign_scalar(10);
    assert_eq!(copy, Vector::from_vec(vec![13, 11, 14]));
    assert_eq!(original, Vector::from_vec(vec![3, 1, 4]));
}

#[test]
fn equals_distinguishes_length_and_content() {
    let a = Vector::from_vec(vec![1, 2, 3]);
    let b = Vector::from_vec(vec![1, 2, 3]);
    let c = Vector::from_vec(vec![1, 2]);
    let d = Vector::from_vec(vec![1, 2, 4]);
    assert!(a.equals(&b));
    assert!(!a.equals(&c));
    assert!(!a.equals(&d));
    assert!(a == b);
    assert!(a != d);
}

#[test]
fn uniform_draws_fresh_entropy() {
    // over so wide an interval, two independent draws of sixteen values
    // coincide only with vanishing probability; a sampler that merely
    // echoed one of its bounds would make them equal
    let a: Vector<u64> = Vector::uniform(16, 0, u64::MAX);
    let b: Vector<u64> = Vector::uniform(16, 0, u64::MAX);
    assert!(!a.equals(&b));
}

#[test]
fn get_reports_out_of_bounds_exactly_past_the_end() {
    let x = Vector::from_vec(vec![7, 8]);
    assert_eq!(x.get(0), Ok(7));
    assert_eq!(x.get(1), Ok(8));
    assert_eq!(x.get(2), Err(VectorError::OutOfBounds));
}

#[test]
fn error_descriptions_name_the_failure() {
    assert_eq!(
        VectorError::InvalidInterval.describe(),
        "invalid interval: start must be below stop"
    );
    assert_eq!(
        VectorError::LengthMismatch { left: 5, right: 4 }.describe(),
        "length mismatch between operands"
    );
    assert_eq!(VectorError::OutOfBounds.describe(), "index or slice bound out of bounds");
}

#[test]
fn complete_linspace_forces_the_endpoint() {
    // accumulation that stopped one short: the stop value is appended
    let shorter = Vector::complete_linspace(vec![1, 3], 3, 5);
    assert_eq!(shorter.into_vec(), [1, 3, 5]);

    // accumulation that reached the full count: the last slot is
    // overwritten with the stop value
    let exact = Vector::complete_linspace(vec![1, 3, 4], 3, 5);
    assert_eq!(exact.into_vec(), [1, 3, 5]);
}
