//! The capability contract every element type must provide.
//!
//! An element type is modelled by an injective map into the mathematical
//! integers (`as_int`) together with the interval of integers it can
//! represent (`in_range`). All arithmetic contracts of the library are
//! stated over that model: an operation's result is pinned by its image
//! under `as_int`, and freedom from overflow is the demand that the exact
//! integer result lies `in_range`.

use vstd::prelude::*;

verus! {

/// The set of capabilities a scalar must provide to serve as the element
/// type of a [`crate::Vector`]: ring operations with explicit overflow
/// preconditions, the identities zero and one, equality and a total
/// order, all specified through an injective integer model.
pub trait Element: Sized + Copy {
    /// The mathematical integer a value stands for.
    spec fn as_int(self) -> int;

    /// Whether the type can represent the integer `n`.
    spec fn in_range(n: int) -> bool;

    /// Every value of the type lies inside its own range.
    proof fn lemma_in_range(self)
        ensures
            Self::in_range(self.as_int()),
    ;

    /// The integer model is injective: values with the same image are
    /// the same value.
    proof fn lemma_as_int_injective(self, other: Self)
        requires
            self.as_int() == other.as_int(),
        ensures
            self == other,
    ;

    /// The additive identity.
    fn zero_val() -> (r: Self)
        ensures
            r.as_int() == 0,
    ;

    /// The multiplicative identity.
    fn one_val() -> (r: Self)
        ensures
            r.as_int() == 1,
    ;

    /// Exact addition; the caller owes freedom from overflow.
    fn add_val(self, other: Self) -> (r: Self)
        requires
            Self::in_range(self.as_int() + other.as_int()),
        ensures
            r.as_int() == self.as_int() + other.as_int(),
    ;

    /// Exact subtraction; the caller owes freedom from overflow.
    fn sub_val(self, other: Self) -> (r: Self)
        requires
            Self::in_range(self.as_int() - other.as_int()),
        ensures
            r.as_int() == self.as_int() - other.as_int(),
    ;

    /// Exact multiplication; the caller owes freedom from overflow.
    fn mul_val(self, other: Self) -> (r: Self)
        requires
            Self::in_range(self.as_int() * other.as_int()),
        ensures
            r.as_int() == self.as_int() * other.as_int(),
    ;

    /// Equality of values, which coincides with equality of their
    /// integer images.
    fn eq_val(self, other: Self) -> (r: bool)
        ensures
            r == (self == other),
            r == (self.as_int() == other.as_int()),
    ;

    /// The strict order inherited from the integers.
    fn lt_val(self, other: Self) -> (r: bool)
        ensures
            r == (self.as_int() < other.as_int()),
    ;
}

impl Element for u8 {
    open spec fn as_int(self) -> int {
        self as int
    }

    open spec fn in_range(n: int) -> bool {
        0 <= n <= u8::MAX
    }

    proof fn lemma_in_range(self) {
    }

    proof fn lemma_as_int_injective(self, other: Self) {
    }

    fn zero_val() -> (r: Self) {
        0
    }

    fn one_val() -> (r: Self) {
        1
    }

    fn add_val(self, other: Self) -> (r: Self) {
        self + other
    }

    fn sub_val(self, other: Self) -> (r: Self) {
        self - other
    }

    fn mul_val(self, other: Self) -> (r: Self) {
        self * other
    }

    fn eq_val(self, other: Self) -> (r: bool) {
        self == other
    }

    fn lt_val(self, other: Self) -> (r: bool) {
        self < other
    }
}

impl Element for i32 {
    open spec fn as_int(self) -> int {
        self as int
    }

    open spec fn in_range(n: int) -> bool {
        i32::MIN <= n <= i32::MAX
    }

    proof fn lemma_in_range(self) {
    }

    proof fn lemma_as_int_injective(self, other: Self) {
    }

    fn zero_val() -> (r: Self) {
        0
    }

    fn one_val() -> (r: Self) {
        1
    }

    fn add_val(self, other: Self) -> (r: Self) {
        self + other
    }

    fn sub_val(self, other: Self) -> (r: Self) {
        self - other
    }

    fn mul_val(self, other: Self) -> (r: Self) {
        self * other
    }

    fn eq_val(self, other: Self) -> (r: bool) {
        self == other
    }

    fn lt_val(self, other: Self) -> (r: bool) {
        self < other
    }
}

impl Element for u16 {
    open spec fn as_int(self) -> int {
        self as int
    }

    open spec fn in_range(n: int) -> bool {
        0 <= n <= u16::MAX
    }

    proof fn lemma_in_range(self) {
    }

    proof fn lemma_as_int_injective(self, other: Self) {
    }

    fn zero_val() -> (r: Self) {
        0
    }

    fn one_val() -> (r: Self) {
        1
    }

    fn add_val(self, other: Self) -> (r: Self) {
        self + other
    }

    fn sub_val(self, other: Self) -> (r: Self) {
        self - other
    }

    fn mul_val(self, other: Self) -> (r: Self) {
        self * other
    }

    fn eq_val(self, other: Self) -> (r: bool) {
        self == other
    }

    fn lt_val(self, other: Self) -> (r: bool) {
        self < other
    }
}

impl Element for u32 {
    open spec fn as_int(self) -> int {
        self as int
    }

    open spec fn in_range(n: int) -> bool {
        0 <= n <= u32::MAX
    }

    proof fn lemma_in_range(self) {
    }

    proof fn lemma_as_int_injective(self, other: Self) {
    }

    fn zero_val() -> (r: Self) {
        0
    }

    fn one_val() -> (r: Self) {
        1
    }

    fn add_val(self, other: Self) -> (r: Self) {
        self + other
    }

    fn sub_val(self, other: Self) -> (r: Self) {
        self - other
    }

    fn mul_val(self, other: Self) -> (r: Self) {
        self * other
    }

    fn eq_val(self, other: Self) -> (r: bool) {
        self == other
    }

    fn lt_val(self, other: Self) -> (r: bool) {
        self < other
    }
}

impl Element for u64 {
    open spec fn as_int(self) -> int {
        self as int
    }

    open spec fn in_range(n: int) -> bool {
        0 <= n <= u64::MAX
    }

    proof fn lemma_in_range(self) {
    }

    proof fn lemma_as_int_injective(self, other: Self) {
    }

    fn zero_val() -> (r: Self) {
        0
    }

    fn one_val() -> (r: Self) {
        1
    }

    fn add_val(self, other: Self) -> (r: Self) {
        self + other
    }

    fn sub_val(self, other: Self) -> (r: Self) {
        self - other
    }

    fn mul_val(self, other: Self) -> (r: Self) {
        self * other
    }

    fn eq_val(self, other: Self) -> (r: bool) {
        self == other
    }

    fn lt_val(self, other: Self) -> (r: bool) {
        self < other
    }
}

impl Element for u128 {
    open spec fn as_int(self) -> int {
        self as int
    }

    open spec fn in_range(n: int) -> bool {
        0 <= n <= u128::MAX
    }

    proof fn lemma_in_range(self) {
    }

    proof fn lemma_as_int_injective(self, other: Self) {
    }

    fn zero_val() -> (r: Self) {
        0
    }

    fn one_val() -> (r: Self) {
        1
    }

    fn add_val(self, other: Self) -> (r: Self) {
        self + other
    }

    fn sub_val(self, other: Self) -> (r: Self) {
        self - other
    }

    fn mul_val(self, other: Self) -> (r: Self) {
        self * other
    }

    fn eq_val(self, other: Self) -> (r: bool) {
        self == other
    }

    fn lt_val(self, other: Self) -> (r: bool) {
        self < other
    }
}

impl Element for usize {
    open spec fn as_int(self) -> int {
        self as int
    }

    open spec fn in_range(n: int) -> bool {
        0 <= n <= usize::MAX
    }

    proof fn lemma_in_range(self) {
    }

    proof fn lemma_as_int_injective(self, other: Self) {
    }

    fn zero_val() -> (r: Self) {
        0
    }

    fn one_val() -> (r: Self) {
        1
    }

    fn add_val(self, other: Self) -> (r: Self) {
        self + other
    }

    fn sub_val(self, other: Self) -> (r: Self) {
        self - other
    }

    fn mul_val(self, other: Self) -> (r: Self) {
        self * other
    }

    fn eq_val(self, other: Self) -> (r: bool) {
        self == other
    }

    fn lt_val(self, other: Self) -> (r: bool) {
        self < other
    }
}

impl Element for i8 {
    open spec fn as_int(self) -> int {
        self as int
    }

    open spec fn in_range(n: int) -> bool {
        i8::MIN <= n <= i8::MAX
    }

    proof fn lemma_in_range(self) {
    }

    proof fn lemma_as_int_injective(self, other: Self) {
    }

    fn zero_val() -> (r: Self) {
        0
    }

    fn one_val() -> (r: Self) {
        1
    }

    fn add_val(self, other: Self) -> (r: Self) {
        self + other
    }

    fn sub_val(self, other: Self) -> (r: Self) {
        self - other
    }

    fn mul_val(self, other: Self) -> (r: Self) {
        self * other
    }

    fn eq_val(self, other: Self) -> (r: bool) {
        self == other
    }

    fn lt_val(self, other: Self) -> (r: bool) {
        self < other
    }
}

impl Element for i16 {
    open spec fn as_int(self) -> int {
        self as int
    }

    open spec fn in_range(n: int) -> bool {
        i16::MIN <= n <= i16::MAX
    }

    proof fn lemma_in_range(self) {
    }

    proof fn lemma_as_int_injective(self, other: Self) {
    }

    fn zero_val() -> (r: Self) {
        0
    }

    fn one_val() -> (r: Self) {
        1
    }

    fn add_val(self, other: Self) -> (r: Self) {
        self + other
    }

    fn sub_val(self, other: Self) -> (r: Self) {
        self - other
    }

    fn mul_val(self, other: Self) -> (r: Self) {
        self * other
    }

    fn eq_val(self, other: Self) -> (r: bool) {
        self == other
    }

    fn lt_val(self, other: Self) -> (r: bool) {
        self < other
    }
}

impl Element for i64 {
    open spec fn as_int(self) -> int {
        self as int
    }

    open spec fn in_range(n: int) -> bool {
        i64::MIN <= n <= i64::MAX
    }

    proof fn lemma_in_range(self) {
    }

    proof fn lemma_as_int_injective(self, other: Self) {
    }

    fn zero_val() -> (r: Self) {
        0
    }

    fn one_val() -> (r: Self) {
        1
    }

    fn add_val(self, other: Self) -> (r: Self) {
        self + other
    }

    fn sub_val(self, other: Self) -> (r: Self) {
        self - other
    }

    fn mul_val(self, other: Self) -> (r: Self) {
        self * other
    }

    fn eq_val(self, other: Self) -> (r: bool) {
        self == other
    }

    fn lt_val(self, other: Self) -> (r: bool) {
        self < other
    }
}

impl Element for i128 {
    open spec fn as_int(self) -> int {
        self as int
    }

    open spec fn in_range(n: int) -> bool {
        i128::MIN <= n <= i128::MAX
    }

    proof fn lemma_in_range(self) {
    }

    proof fn lemma_as_int_injective(self, other: Self) {
    }

    fn zero_val() -> (r: Self) {
        0
    }

    fn one_val() -> (r: Self) {
        1
    }

    fn add_val(self, other: Self) -> (r: Self) {
        self + other
    }

    fn sub_val(self, other: Self) -> (r: Self) {
        self - other
    }

    fn mul_val(self, other: Self) -> (r: Self) {
        self * other
    }

    fn eq_val(self, other: Self) -> (r: bool) {
        self == other
    }

    fn lt_val(self, other: Self) -> (r: bool) {
        self < other
    }
}

} // verus!
