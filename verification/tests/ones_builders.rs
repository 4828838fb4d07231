use numvec::four_dim;
use numvec::one_dim;
use numvec::three_dim;
use numvec::two_dim;
use numvec::One;

#[test]
fn test_ones_u8_one_dim() {
    let arr: Vec<u8> = one_dim(2).ones();
    assert_eq!(arr, [1, 1]);
}

#[test]
fn test_ones_u8_two_dim() {
    let arr: Vec<Vec<u8>> = two_dim(1, 2).ones();
    assert_eq!(arr, [[1, 1]]);
}

#[test]
fn test_ones_u8_three_dim() {
    let arr: Vec<Vec<Vec<u8>>> = three_dim(1, 1, 2).ones();
    assert_eq!(arr, [[[1, 1]]]);
}

#[test]
fn test_ones_u8_four_dim() {
    let arr: Vec<Vec<Vec<Vec<u8>>>> = four_dim(1, 1, 1, 2).ones();
    assert_eq!(arr, [[[[1, 1]]]]);
}

#[test]
fn test_ones_u16_one_dim() {
    let arr: Vec<u16> = one_dim(2).ones();
    assert_eq!(arr, [1, 1]);
}

#[test]
fn test_ones_u16_two_dim() {
    let arr: Vec<Vec<u16>> = two_dim(1, 2).ones();
    assert_eq!(arr, [[1, 1]]);
}

#[test]
fn test_ones_u16_three_dim() {
    let arr: Vec<Vec<Vec<u16>>> = three_dim(1, 1, 2).ones();
    assert_eq!(arr, [[[1, 1]]]);
}

#[test]
fn test_ones_u16_four_dim() {
    let arr: Vec<Vec<Vec<Vec<u16>>>> = four_dim(1, 1, 1, 2).ones();
    assert_eq!(arr, [[[[1, 1]]]]);
}

#[test]
fn test_ones_u32_one_dim() {
    let arr: Vec<u32> = one_dim(2).ones();
    assert_eq!(arr, [1, 1]);
}

#[test]
fn test_ones_u32_two_dim() {
    let arr: Vec<Vec<u32>> = two_dim(1, 2).ones();
    assert_eq!(arr, [[1, 1]]);
}

#[test]
fn test_ones_u32_three_dim() {
    let arr: Vec<Vec<Vec<u32>>> = three_dim(1, 1, 2).ones();
    assert_eq!(arr, [[[1, 1]]]);
}

#[test]
fn test_ones_u32_four_dim() {
    let arr: Vec<Vec<Vec<Vec<u32>>>> = four_dim(1, 1, 1, 2).ones();
    assert_eq!(arr, [[[[1, 1]]]]);
}

#[test]
fn test_ones_u64_one_dim() {
    let arr: Vec<u64> = one_dim(2).ones();
    assert_eq!(arr, [1, 1]);
}

#[test]
fn test_ones_u64_two_dim() {
    let arr: Vec<Vec<u64>> = two_dim(1, 2).ones();
    assert_eq!(arr, [[1, 1]]);
}

#[test]
fn test_ones_u64_three_dim() {
    let arr: Vec<Vec<Vec<u64>>> = three_dim(1, 1, 2).ones();
    assert_eq!(arr, [[[1, 1]]]);
}

#[test]
fn test_ones_u64_four_dim() {
    let arr: Vec<Vec<Vec<Vec<u64>>>> = four_dim(1, 1, 1, 2).ones();
    assert_eq!(arr, [[[[1, 1]]]]);
}

#[test]
fn test_ones_u128_one_dim() {
    let arr: Vec<u128> = one_dim(2).ones();
    assert_eq!(arr, [1, 1]);
}

#[test]
fn test_ones_u128_two_dim() {
    let arr: Vec<Vec<u128>> = two_dim(1, 2).ones();
    assert_eq!(arr, [[1, 1]]);
}

#[test]
fn test_ones_u128_three_dim() {
    let arr: Vec<Vec<Vec<u128>>> = three_dim(1, 1, 2).ones();
    assert_eq!(arr, [[[1, 1]]]);
}

#[test]
fn test_ones_u128_four_dim() {
    let arr: Vec<Vec<Vec<Vec<u128>>>> = four_dim(1, 1, 1, 2).ones();
    assert_eq!(arr, [[[[1, 1]]]]);
}

#[test]
fn test_ones_i8_one_dim() {
    let arr: Vec<i8> = one_dim(2).ones();
    assert_eq!(arr, [1, 1]);
}

#[test]
fn test_ones_i8_two_dim() {
    let arr: Vec<Vec<i8>> = two_dim(1, 2).ones();
    assert_eq!(arr, [[1, 1]]);
}

#[test]
fn test_ones_i8_three_dim() {
    let arr: Vec<Vec<Vec<i8>>> = three_dim(1, 1, 2).ones();
    assert_eq!(arr, [[[1, 1]]]);
}

#[test]
fn test_ones_i8_four_dim() {
    let arr: Vec<Vec<Vec<Vec<i8>>>> = four_dim(1, 1, 1, 2).ones();
    assert_eq!(arr, [[[[1, 1]]]]);
}

#[test]
fn test_ones_i16_one_dim() {
    let arr: Vec<i16> = one_dim(2).ones();
    assert_eq!(arr, [1, 1]);
}

#[test]
fn test_ones_i16_two_dim() {
    let arr: Vec<Vec<i16>> = two_dim(1, 2).ones();
    assert_eq!(arr, [[1, 1]]);
}

#[test]
fn test_ones_i16_three_dim() {
    let arr: Vec<Vec<Vec<i16>>> = three_dim(1, 1, 2).ones();
    assert_eq!(arr, [[[1, 1]]]);
}

#[test]
fn test_ones_i16_four_dim() {
    let arr: Vec<Vec<Vec<Vec<i16>>>> = four_dim(1, 1, 1, 2).ones();
    assert_eq!(arr, [[[[1, 1]]]]);
}

#[test]
fn test_ones_i32_one_dim() {
    let arr: Vec<i32> = one_dim(2).ones();
    assert_eq!(arr, [1, 1]);
}

#[test]
fn test_ones_i32_two_dim() {
    let arr: Vec<Vec<i32>> = two_dim(1, 2).ones();
    assert_eq!(arr, [[1, 1]]);
}

#[test]
fn test_ones_i32_three_dim() {
    let arr: Vec<Vec<Vec<i32>>> = three_dim(1, 1, 2).ones();
    assert_eq!(arr, [[[1, 1]]]);
}

#[test]
fn test_ones_i32_four_dim() {
    let arr: Vec<Vec<Vec<Vec<i32>>>> = four_dim(1, 1, 1, 2).ones();
    assert_eq!(arr, [[[[1, 1]]]]);
}

#[test]
fn test_ones_i64_one_dim() {
    let arr: Vec<i64> = one_dim(2).ones();
    assert_eq!(arr, [1, 1]);
}

#[test]
fn test_ones_i64_two_dim() {
    let arr: Vec<Vec<i64>> = two_dim(1, 2).ones();
    assert_eq!(arr, [[1, 1]]);
}

#[test]
fn test_ones_i64_three_dim() {
    let arr: Vec<Vec<Vec<i64>>> = three_dim(1, 1, 2).ones();
    assert_eq!(arr, [[[1, 1]]]);
}

#[test]
fn test_ones_i64_four_dim() {
    let arr: Vec<Vec<Vec<Vec<i64>>>> = four_dim(1, 1, 1, 2).ones();
    assert_eq!(arr, [[[[1, 1]]]]);
}

#[test]
fn test_ones_i128_one_dim() {
    let arr: Vec<i128> = one_dim(2).ones();
    assert_eq!(arr, [1, 1]);
}

#[test]
fn test_ones_i128_two_dim() {
    let arr: Vec<Vec<i128>> = two_dim(1, 2).ones();
    assert_eq!(arr, [[1, 1]]);
}

#[test]
fn test_ones_i128_three_dim() {
    let arr: Vec<Vec<Vec<i128>>> = three_dim(1, 1, 2).ones();
    assert_eq!(arr, [[[1, 1]]]);
}

#[test]
fn test_ones_i128_four_dim() {
    let arr: Vec<Vec<Vec<Vec<i128>>>> = four_dim(1, 1, 1, 2).ones();
    assert_eq!(arr, [[[[1, 1]]]]);
}
