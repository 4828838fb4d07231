//! The numeric vector container and its operator layer.

use crate::element::Element;
use crate::errors::VectorError;
use vstd::arithmetic::power::lemma_pow0;
use vstd::arithmetic::power::lemma_pow1;
use vstd::arithmetic::power::lemma_pow_adds;
use vstd::arithmetic::power::pow;
use vstd::prelude::*;

verus! {

/// An owned, ordered, finite sequence of numeric values.
///
/// The view of a vector is the mathematical sequence of its elements;
/// every contract below speaks of that sequence.
#[derive(Debug)]
pub struct Vector<T> {
    elements: Vec<T>,
}

impl<T> View for Vector<T> {
    type V = Seq<T>;

    closed spec fn view(&self) -> Seq<T> {
        self.elements@
    }
}

impl<T> Vector<T> {
    /// The total number of elements of the numeric vector.
    pub fn len(&self) -> (r: usize)
        ensures
            r == self@.len(),
    {
        self.elements.len()
    }

    /// Wrap a literal sequence of values as a numeric vector.
    pub fn from_vec(elements: Vec<T>) -> (r: Vector<T>)
        ensures
            r@ == elements@,
    {
        Vector { elements }
    }

    /// Surrender the backing sequence of the vector.
    pub fn into_vec(self) -> (r: Vec<T>)
        ensures
            r@ == self@,
    {
        self.elements
    }
}

impl<T: Copy> Vector<T> {
    /// The element at position `i`; positions at or past the length do
    /// not exist.
    pub fn at(&self, i: usize) -> (r: T)
        requires
            i < self@.len(),
        ensures
            r == self@[i as int],
    {
        self.elements[i]
    }

    /// The element at position `i`, or an out-of-bounds error exactly
    /// when `i` reaches past the end.
    pub fn get(&self, i: usize) -> (r: Result<T, VectorError>)
        ensures
            match r {
                Ok(v) => i < self@.len() && v == self@[i as int],
                Err(e) => i >= self@.len() && e == VectorError::OutOfBounds,
            },
    {
        if i < self.elements.len() {
            Ok(self.elements[i])
        } else {
            Err(VectorError::OutOfBounds)
        }
    }

    /// A numeric vector of length `len`, every element equal to `value`.
    pub fn full(len: usize, value: T) -> (r: Vector<T>)
        ensures
            r@.len() == len,
            forall|i: int| 0 <= i < len ==> r@[i] == value,
    {
        let mut elements: Vec<T> = Vec::new();
        let mut k: usize = 0;
        while k < len
            invariant
                k <= len,
                elements@.len() == k,
                forall|i: int| 0 <= i < k ==> elements@[i] == value,
            decreases len - k,
        {
            elements.push(value);
            k = k + 1;
        }
        Vector { elements }
    }

    /// A numeric vector with the same length as `v`, every element equal
    /// to `value`.
    pub fn full_like(v: &Vector<T>, value: T) -> (r: Vector<T>)
        ensures
            r@.len() == v@.len(),
            forall|i: int| 0 <= i < v@.len() ==> r@[i] == value,
    {
        Self::full(v.len(), value)
    }
}

impl<T: Element> Vector<T> {
    /// A numeric vector of length `len` filled with the element type's
    /// zero.
    pub fn zeros(len: usize) -> (r: Vector<T>)
        ensures
            r@.len() == len,
            forall|i: int| 0 <= i < len ==> (#[trigger] r@[i]).as_int() == 0,
    {
        Self::full(len, T::zero_val())
    }

    /// A numeric vector with the same length as `v`, filled with the
    /// element type's zero.
    pub fn zeros_like(v: &Vector<T>) -> (r: Vector<T>)
        ensures
            r@.len() == v@.len(),
            forall|i: int| 0 <= i < v@.len() ==> (#[trigger] r@[i]).as_int() == 0,
    {
        Self::full(v.len(), T::zero_val())
    }

    /// A numeric vector of length `len` filled with the element type's
    /// one.
    pub fn ones(len: usize) -> (r: Vector<T>)
        ensures
            r@.len() == len,
            forall|i: int| 0 <= i < len ==> (#[trigger] r@[i]).as_int() == 1,
    {
        Self::full(len, T::one_val())
    }

    /// A numeric vector with the same length as `v`, filled with the
    /// element type's one.
    pub fn ones_like(v: &Vector<T>) -> (r: Vector<T>)
        ensures
            r@.len() == v@.len(),
            forall|i: int| 0 <= i < v@.len() ==> (#[trigger] r@[i]).as_int() == 1,
    {
        Self::full(v.len(), T::one_val())
    }

    /// True exactly when both vectors have the same length and
    /// pairwise-equal elements in order.
    pub fn equals(&self, other: &Vector<T>) -> (r: bool)
        ensures
            r == (self@ == other@),
    {
        if self.elements.len() != other.elements.len() {
            return false;
        }
        let n = self.elements.len();
        let mut k: usize = 0;
        while k < n
            invariant
                k <= n,
                n == self@.len(),
                n == other@.len(),
                forall|i: int| 0 <= i < k ==> self@[i] == other@[i],
            decreases n - k,
        {
            if !self.elements[k].eq_val(other.elements[k]) {
                return false;
            }
            k = k + 1;
        }
        proof {
            assert(self@ =~= other@);
        }
        true
    }
}

impl<T> From<Vec<T>> for Vector<T> {
    /// Direct conversion from a literal sequence, with no validation
    /// beyond the element type.
    fn from(elements: Vec<T>) -> (r: Self) {
        Vector { elements }
    }
}

impl<T> vstd::std_specs::convert::FromSpecImpl<Vec<T>> for Vector<T> {
    open spec fn obeys_from_spec() -> bool {
        true
    }

    closed spec fn from_spec(elements: Vec<T>) -> Self {
        Vector { elements }
    }
}

/// Converting a literal sequence yields a vector holding exactly that
/// sequence of elements.
pub broadcast proof fn lemma_from_vec_spec<T>(elements: Vec<T>)
    ensures
        (#[trigger] <Vector<T> as vstd::std_specs::convert::FromSpec<Vec<T>>>::from_spec(
            elements,
        ))@ == elements@,
{
}

impl<T: Copy> Clone for Vector<T> {
    /// A deep copy with independent backing storage; the copy's
    /// sequence of elements equals the original's.
    fn clone(&self) -> (r: Self)
        ensures
            r@ == self@,
    {
        let n = self.elements.len();
        let mut elements: Vec<T> = Vec::new();
        let mut k: usize = 0;
        while k < n
            invariant
                k <= n,
                n == self@.len(),
                elements@.len() == k,
                forall|i: int| 0 <= i < k ==> elements@[i] == self@[i],
            decreases n - k,
        {
            elements.push(self.elements[k]);
            k = k + 1;
        }
        proof {
            assert(elements@ =~= self@);
        }
        Vector { elements }
    }
}

impl<T: Element> Vector<T> {
    /// Elementwise addition. Both operands must have the same length;
    /// otherwise the call fails with a length-mismatch error naming
    /// both lengths. Neither operand is modified.
    pub fn add(&self, other: &Vector<T>) -> (r: Result<Vector<T>, VectorError>)
        requires
            self@.len() == other@.len() ==> forall|i: int|
                0 <= i < self@.len() ==> T::in_range(
                    (#[trigger] self@[i]).as_int() + other@[i].as_int(),
                ),
        ensures
            match r {
                Ok(v) => self@.len() == other@.len() && v@.len() == self@.len() && forall|i: int|
                    0 <= i < v@.len() ==> (#[trigger] v@[i]).as_int() == self@[i].as_int()
                        + other@[i].as_int(),
                Err(e) => self@.len() != other@.len() && e == (VectorError::LengthMismatch {
                    left: self@.len() as usize,
                    right: other@.len() as usize,
                }),
            },
    {
        let n = self.elements.len();
        if n != other.elements.len() {
            return Err(
                VectorError::LengthMismatch { left: n, right: other.elements.len() },
            );
        }
        let mut elements: Vec<T> = Vec::new();
        let mut k: usize = 0;
        while k < n
            invariant
                k <= n,
                n == self@.len(),
                n == other@.len(),
                elements@.len() == k,
                forall|i: int|
                    0 <= i < n ==> T::in_range(
                        (#[trigger] self@[i]).as_int() + other@[i].as_int(),
                    ),
                forall|i: int|
                    0 <= i < k ==> (#[trigger] elements@[i]).as_int() == self@[i].as_int()
                        + other@[i].as_int(),
            decreases n - k,
        {
            elements.push(self.elements[k].add_val(other.elements[k]));
            k = k + 1;
        }
        Ok(Vector { elements })
    }

    /// Elementwise subtraction under the same length discipline as
    /// addition.
    pub fn sub(&self, other: &Vector<T>) -> (r: Result<Vector<T>, VectorError>)
        requires
            self@.len() == other@.len() ==> forall|i: int|
                0 <= i < self@.len() ==> T::in_range(
                    (#[trigger] self@[i]).as_int() - other@[i].as_int(),
                ),
        ensures
            match r {
                Ok(v) => self@.len() == other@.len() && v@.len() == self@.len() && forall|i: int|
                    0 <= i < v@.len() ==> (#[trigger] v@[i]).as_int() == self@[i].as_int()
                        - other@[i].as_int(),
                Err(e) => self@.len() != other@.len() && e == (VectorError::LengthMismatch {
                    left: self@.len() as usize,
                    right: other@.len() as usize,
                }),
            },
    {
        let n = self.elements.len();
        if n != other.elements.len() {
            return Err(
                VectorError::LengthMismatch { left: n, right: other.elements.len() },
            );
        }
        let mut elements: Vec<T> = Vec::new();
        let mut k: usize = 0;
        while k < n
            invariant
                k <= n,
                n == self@.len(),
                n == other@.len(),
                elements@.len() == k,
                forall|i: int|
                    0 <= i < n ==> T::in_range(
                        (#[trigger] self@[i]).as_int() - other@[i].as_int(),
                    ),
                forall|i: int|
                    0 <= i < k ==> (#[trigger] elements@[i]).as_int() == self@[i].as_int()
                        - other@[i].as_int(),
            decreases n - k,
        {
            elements.push(self.elements[k].sub_val(other.elements[k]));
            k = k + 1;
        }
        Ok(Vector { elements })
    }

    /// Elementwise multiplication under the same length discipline as
    /// addition.
    pub fn mul(&self, other: &Vector<T>) -> (r: Result<Vector<T>, VectorError>)
        requires
            self@.len() == other@.len() ==> forall|i: int|
                0 <= i < self@.len() ==> T::in_range(
                    (#[trigger] self@[i]).as_int() * other@[i].as_int(),
                ),
        ensures
            match r {
                Ok(v) => self@.len() == other@.len() && v@.len() == self@.len() && forall|i: int|
                    0 <= i < v@.len() ==> (#[trigger] v@[i]).as_int() == self@[i].as_int()
                        * other@[i].as_int(),
                Err(e) => self@.len() != other@.len() && e == (VectorError::LengthMismatch {
                    left: self@.len() as usize,
                    right: other@.len() as usize,
                }),
            },
    {
        let n = self.elements.len();
        if n != other.elements.len() {
            return Err(
                VectorError::LengthMismatch { left: n, right: other.elements.len() },
            );
        }
        let mut elements: Vec<T> = Vec::new();
        let mut k: usize = 0;
        while k < n
            invariant
                k <= n,
                n == self@.len(),
                n == other@.len(),
                elements@.len() == k,
                forall|i: int|
                    0 <= i < n ==> T::in_range(
                        (#[trigger] self@[i]).as_int() * other@[i].as_int(),
                    ),
                forall|i: int|
                    0 <= i < k ==> (#[trigger] elements@[i]).as_int() == self@[i].as_int()
                        * other@[i].as_int(),
            decreases n - k,
        {
            elements.push(self.elements[k].mul_val(other.elements[k]));
            k = k + 1;
        }
        Ok(Vector { elements })
    }

    /// Broadcast addition of a scalar on the right: every element is
    /// increased by `value`. The vector itself is unmodified.
    pub fn add_scalar(&self, value: T) -> (r: Vector<T>)
        requires
            forall|i: int|
                0 <= i < self@.len() ==> T::in_range(
                    (#[trigger] self@[i]).as_int() + value.as_int(),
                ),
        ensures
            r@.len() == self@.len(),
            forall|i: int|
                0 <= i < self@.len() ==> (#[trigger] r@[i]).as_int() == self@[i].as_int()
                    + value.as_int(),
    {
        let n = self.elements.len();
        let mut elements: Vec<T> = Vec::new();
        let mut k: usize = 0;
        while k < n
            invariant
                k <= n,
                n == self@.len(),
                elements@.len() == k,
                forall|i: int|
                    0 <= i < n ==> T::in_range((#[trigger] self@[i]).as_int() + value.as_int()),
                forall|i: int|
                    0 <= i < k ==> (#[trigger] elements@[i]).as_int() == self@[i].as_int()
                        + value.as_int(),
            decreases n - k,
        {
            elements.push(self.elements[k].add_val(value));
            k = k + 1;
        }
        Vector { elements }
    }

    /// Broadcast subtraction of a scalar on the right: each result
    /// element is `element - value`.
    pub fn sub_scalar(&self, value: T) -> (r: Vector<T>)
        requires
            forall|i: int|
                0 <= i < self@.len() ==> T::in_range(
                    (#[trigger] self@[i]).as_int() - value.as_int(),
                ),
        ensures
            r@.len() == self@.len(),
            forall|i: int|
                0 <= i < self@.len() ==> (#[trigger] r@[i]).as_int() == self@[i].as_int()
                    - value.as_int(),
    {
        let n = self.elements.len();
        let mut elements: Vec<T> = Vec::new();
        let mut k: usize = 0;
        while k < n
            invariant
                k <= n,
                n == self@.len(),
                elements@.len() == k,
                forall|i: int|
                    0 <= i < n ==> T::in_range((#[trigger] self@[i]).as_int() - value.as_int()),
                forall|i: int|
                    0 <= i < k ==> (#[trigger] elements@[i]).as_int() == self@[i].as_int()
                        - value.as_int(),
            decreases n - k,
        {
            elements.push(self.elements[k].sub_val(value));
            k = k + 1;
        }
        Vector { elements }
    }

    /// Broadcast multiplication by a scalar on the right: every element
    /// is multiplied by `value`.
    pub fn mul_scalar(&self, value: T) -> (r: Vector<T>)
        requires
            forall|i: int|
                0 <= i < self@.len() ==> T::in_range(
                    (#[trigger] self@[i]).as_int() * value.as_int(),
                ),
        ensures
            r@.len() == self@.len(),
            forall|i: int|
                0 <= i < self@.len() ==> (#[trigger] r@[i]).as_int() == self@[i].as_int()
                    * value.as_int(),
    {
        let n = self.elements.len();
        let mut elements: Vec<T> = Vec::new();
        let mut k: usize = 0;
        while k < n
            invariant
                k <= n,
                n == self@.len(),
                elements@.len() == k,
                forall|i: int|
                    0 <= i < n ==> T::in_range((#[trigger] self@[i]).as_int() * value.as_int()),
                forall|i: int|
                    0 <= i < k ==> (#[trigger] elements@[i]).as_int() == self@[i].as_int()
                        * value.as_int(),
            decreases n - k,
        {
            elements.push(self.elements[k].mul_val(value));
            k = k + 1;
        }
        Vector { elements }
    }

    /// Broadcast addition with the scalar on the left; addition
    /// commutes, so each result element is `value + element`.
    pub fn scalar_add(value: T, v: &Vector<T>) -> (r: Vector<T>)
        requires
            forall|i: int|
                0 <= i < v@.len() ==> T::in_range(value.as_int() + (#[trigger] v@[i]).as_int()),
        ensures
            r@.len() == v@.len(),
            forall|i: int|
                0 <= i < v@.len() ==> (#[trigger] r@[i]).as_int() == value.as_int()
                    + v@[i].as_int(),
    {
        v.add_scalar(value)
    }

    /// Broadcast subtraction with the scalar on the left: each result
    /// element is `value - element`, not `element - value`.
    pub fn scalar_sub(value: T, v: &Vector<T>) -> (r: Vector<T>)
        requires
            forall|i: int|
                0 <= i < v@.len() ==> T::in_range(value.as_int() - (#[trigger] v@[i]).as_int()),
        ensures
            r@.len() == v@.len(),
            forall|i: int|
                0 <= i < v@.len() ==> (#[trigger] r@[i]).as_int() == value.as_int()
                    - v@[i].as_int(),
    {
        let n = v.elements.len();
        let mut elements: Vec<T> = Vec::new();
        let mut k: usize = 0;
        while k < n
            invariant
                k <= n,
                n == v@.len(),
                elements@.len() == k,
                forall|i: int|
                    0 <= i < n ==> T::in_range(value.as_int() - (#[trigger] v@[i]).as_int()),
                forall|i: int|
                    0 <= i < k ==> (#[trigger] elements@[i]).as_int() == value.as_int()
                        - v@[i].as_int(),
            decreases n - k,
        {
            elements.push(value.sub_val(v.elements[k]));
            k = k + 1;
        }
        Vector { elements }
    }

    /// Broadcast multiplication with the scalar on the left;
    /// multiplication commutes, so each result element is
    /// `value * element`.
    pub fn scalar_mul(value: T, v: &Vector<T>) -> (r: Vector<T>)
        requires
            forall|i: int|
                0 <= i < v@.len() ==> T::in_range(value.as_int() * (#[trigger] v@[i]).as_int()),
        ensures
            r@.len() == v@.len(),
            forall|i: int|
                0 <= i < v@.len() ==> (#[trigger] r@[i]).as_int() == value.as_int()
                    * v@[i].as_int(),
    {
        let n = v.elements.len();
        let mut elements: Vec<T> = Vec::new();
        let mut k: usize = 0;
        while k < n
            invariant
                k <= n,
                n == v@.len(),
                elements@.len() == k,
                forall|i: int|
                    0 <= i < n ==> T::in_range(value.as_int() * (#[trigger] v@[i]).as_int()),
                forall|i: int|
                    0 <= i < k ==> (#[trigger] elements@[i]).as_int() == value.as_int()
                        * v@[i].as_int(),
            decreases n - k,
        {
            elements.push(value.mul_val(v.elements[k]));
            k = k + 1;
        }
        Vector { elements }
    }
}

impl<T: Element> Vector<T> {
    /// In-place elementwise addition. On a length mismatch the call
    /// fails with both lengths and leaves the receiver untouched.
    pub fn add_assign_vec(&mut self, other: &Vector<T>) -> (r: Result<(), VectorError>)
        requires
            old(self)@.len() == other@.len() ==> forall|i: int|
                0 <= i < old(self)@.len() ==> T::in_range(
                    (#[trigger] old(self)@[i]).as_int() + other@[i].as_int(),
                ),
        ensures
            match r {
                Ok(_) => old(self)@.len() == other@.len() && final(self)@.len() == old(self)@.len()
                    && forall|i: int|
                    0 <= i < old(self)@.len() ==> (#[trigger] final(self)@[i]).as_int() == old(
                        self,
                    )@[i].as_int() + other@[i].as_int(),
                Err(e) => old(self)@.len() != other@.len() && final(self)@ == old(self)@ && e == (
                VectorError::LengthMismatch {
                    left: old(self)@.len() as usize,
                    right: other@.len() as usize,
                }),
            },
    {
        let n = self.elements.len();
        if n != other.elements.len() {
            return Err(
                VectorError::LengthMismatch { left: n, right: other.elements.len() },
            );
        }
        let mut k: usize = 0;
        while k < n
            invariant
                k <= n,
                n == old(self)@.len(),
                n == other@.len(),
                self@.len() == n,
                forall|i: int|
                    0 <= i < n ==> T::in_range(
                        (#[trigger] old(self)@[i]).as_int() + other@[i].as_int(),
                    ),
                forall|i: int|
                    0 <= i < k ==> (#[trigger] self@[i]).as_int() == old(self)@[i].as_int()
                        + other@[i].as_int(),
                forall|i: int| k <= i < n ==> self@[i] == old(self)@[i],
            decreases n - k,
        {
            self.elements[k] = self.elements[k].add_val(other.elements[k]);
            k = k + 1;
        }
        Ok(())
    }

    /// In-place elementwise subtraction under the same length
    /// discipline as in-place addition.
    pub fn sub_assign_vec(&mut self, other: &Vector<T>) -> (r: Result<(), VectorError>)
        requires
            old(self)@.len() == other@.len() ==> forall|i: int|
                0 <= i < old(self)@.len() ==> T::in_range(
                    (#[trigger] old(self)@[i]).as_int() - other@[i].as_int(),
                ),
        ensures
            match r {
                Ok(_) => old(self)@.len() == other@.len() && final(self)@.len() == old(self)@.len()
                    && forall|i: int|
                    0 <= i < old(self)@.len() ==> (#[trigger] final(self)@[i]).as_int() == old(
                        self,
                    )@[i].as_int() - other@[i].as_int(),
                Err(e) => old(self)@.len() != other@.len() && final(self)@ == old(self)@ && e == (
                VectorError::LengthMismatch {
                    left: old(self)@.len() as usize,
                    right: other@.len() as usize,
                }),
            },
    {
        let n = self.elements.len();
        if n != other.elements.len() {
            return Err(
                VectorError::LengthMismatch { left: n, right: other.elements.len() },
            );
        }
        let mut k: usize = 0;
        while k < n
            invariant
                k <= n,
                n == old(self)@.len(),
                n == other@.len(),
                self@.len() == n,
                forall|i: int|
                    0 <= i < n ==> T::in_range(
                        (#[trigger] old(self)@[i]).as_int() - other@[i].as_int(),
                    ),
                forall|i: int|
                    0 <= i < k ==> (#[trigger] self@[i]).as_int() == old(self)@[i].as_int()
                        - other@[i].as_int(),
                forall|i: int| k <= i < n ==> self@[i] == old(self)@[i],
            decreases n - k,
        {
            self.elements[k] = self.elements[k].sub_val(other.elements[k]);
            k = k + 1;
        }
        Ok(())
    }

    /// In-place elementwise multiplication under the same length
    /// discipline as in-place addition.
    pub fn mul_assign_vec(&mut self, other: &Vector<T>) -> (r: Result<(), VectorError>)
        requires
            old(self)@.len() == other@.len() ==> forall|i: int|
                0 <= i < old(self)@.len() ==> T::in_range(
                    (#[trigger] old(self)@[i]).as_int() * other@[i].as_int(),
                ),
        ensures
            match r {
                Ok(_) => old(self)@.len() == other@.len() && final(self)@.len() == old(self)@.len()
                    && forall|i: int|
                    0 <= i < old(self)@.len() ==> (#[trigger] final(self)@[i]).as_int() == old(
                        self,
                    )@[i].as_int() * other@[i].as_int(),
                Err(e) => old(self)@.len() != other@.len() && final(self)@ == old(self)@ && e == (
                VectorError::LengthMismatch {
                    left: old(self)@.len() as usize,
                    right: other@.len() as usize,
                }),
            },
    {
        let n = self.elements.len();
        if n != other.elements.len() {
            return Err(
                VectorError::LengthMismatch { left: n, right: other.elements.len() },
            );
        }
        let mut k: usize = 0;
        while k < n
            invariant
                k <= n,
                n == old(self)@.len(),
                n == other@.len(),
                self@.len() == n,
                forall|i: int|
                    0 <= i < n ==> T::in_range(
                        (#[trigger] old(self)@[i]).as_int() * other@[i].as_int(),
                    ),
                forall|i: int|
                    0 <= i < k ==> (#[trigger] self@[i]).as_int() == old(self)@[i].as_int()
                        * other@[i].as_int(),
                forall|i: int| k <= i < n ==> self@[i] == old(self)@[i],
            decreases n - k,
        {
            self.elements[k] = self.elements[k].mul_val(other.elements[k]);
            k = k + 1;
        }
        Ok(())
    }

    /// In-place broadcast addition of a scalar; no failure mode.
    pub fn add_assign_scalar(&mut self, value: T)
        requires
            forall|i: int|
                0 <= i < old(self)@.len() ==> T::in_range(
                    (#[trigger] old(self)@[i]).as_int() + value.as_int(),
                ),
        ensures
            final(self)@.len() == old(self)@.len(),
            forall|i: int|
                0 <= i < old(self)@.len() ==> (#[trigger] final(self)@[i]).as_int() == old(
                    self,
                )@[i].as_int() + value.as_int(),
    {
        let n = self.elements.len();
        let mut k: usize = 0;
        while k < n
            invariant
                k <= n,
                n == old(self)@.len(),
                self@.len() == n,
                forall|i: int|
                    0 <= i < n ==> T::in_range(
                        (#[trigger] old(self)@[i]).as_int() + value.as_int(),
                    ),
                forall|i: int|
                    0 <= i < k ==> (#[trigger] self@[i]).as_int() == old(self)@[i].as_int()
                        + value.as_int(),
                forall|i: int| k <= i < n ==> self@[i] == old(self)@[i],
            decreases n - k,
        {
            self.elements[k] = self.elements[k].add_val(value);
            k = k + 1;
        }
    }

    /// In-place broadcast subtraction of a scalar; no failure mode.
    pub fn sub_assign_scalar(&mut self, value: T)
        requires
            forall|i: int|
                0 <= i < old(self)@.len() ==> T::in_range(
                    (#[trigger] old(self)@[i]).as_int() - value.as_int(),
                ),
        ensures
            final(self)@.len() == old(self)@.len(),
            forall|i: int|
                0 <= i < old(self)@.len() ==> (#[trigger] final(self)@[i]).as_int() == old(
                    self,
                )@[i].as_int() - value.as_int(),
    {
        let n = self.elements.len();
        let mut k: usize = 0;
        while k < n
            invariant
                k <= n,
                n == old(self)@.len(),
                self@.len() == n,
                forall|i: int|
                    0 <= i < n ==> T::in_range(
                        (#[trigger] old(self)@[i]).as_int() - value.as_int(),
                    ),
                forall|i: int|
                    0 <= i < k ==> (#[trigger] self@[i]).as_int() == old(self)@[i].as_int()
                        - value.as_int(),
                forall|i: int| k <= i < n ==> self@[i] == old(self)@[i],
            decreases n - k,
        {
            self.elements[k] = self.elements[k].sub_val(value);
            k = k + 1;
        }
    }

    /// In-place broadcast multiplication by a scalar; no failure mode.
    pub fn mul_assign_scalar(&mut self, value: T)
        requires
            forall|i: int|
                0 <= i < old(self)@.len() ==> T::in_range(
                    (#[trigger] old(self)@[i]).as_int() * value.as_int(),
                ),
        ensures
            final(self)@.len() == old(self)@.len(),
            forall|i: int|
                0 <= i < old(self)@.len() ==> (#[trigger] final(self)@[i]).as_int() == old(
                    self,
                )@[i].as_int() * value.as_int(),
    {
        let n = self.elements.len();
        let mut k: usize = 0;
        while k < n
            invariant
                k <= n,
                n == old(self)@.len(),
                self@.len() == n,
                forall|i: int|
                    0 <= i < n ==> T::in_range(
                        (#[trigger] old(self)@[i]).as_int() * value.as_int(),
                    ),
                forall|i: int|
                    0 <= i < k ==> (#[trigger] self@[i]).as_int() == old(self)@[i].as_int()
                        * value.as_int(),
                forall|i: int| k <= i < n ==> self@[i] == old(self)@[i],
            decreases n - k,
        {
            self.elements[k] = self.elements[k].mul_val(value);
            k = k + 1;
        }
    }
}

/// The sum of the integer images of the elements of `s`.
pub open spec fn sum_as_int<T: Element>(s: Seq<T>) -> int
    decreases s.len(),
{
    if s.len() == 0 {
        0
    } else {
        sum_as_int(s.drop_last()) + s.last().as_int()
    }
}

impl<T: Element> Vector<T> {
    /// Evenly stepped values over the half-open interval
    /// `[start, stop)`: the first value is `start`, each later value is
    /// the previous one increased by `step`, and every value lies
    /// strictly below `stop`. An interval with `start >= stop` is
    /// rejected with an invalid-interval error; `step` must be
    /// positive, and every intermediate sum must be representable.
    pub fn range(start: T, stop: T, step: T) -> (r: Result<Vector<T>, VectorError>)
        requires
            start.as_int() < stop.as_int() ==> step.as_int() >= 1,
            start.as_int() < stop.as_int() ==> forall|n: int|
                start.as_int() <= n < stop.as_int() + step.as_int() ==> #[trigger] T::in_range(n),
        ensures
            match r {
                Ok(v) => {
                    &&& start.as_int() < stop.as_int()
                    &&& v@.len() >= 1
                    &&& forall|i: int|
                        0 <= i < v@.len() ==> (#[trigger] v@[i]).as_int() == start.as_int() + i
                            * step.as_int()
                    &&& forall|i: int|
                        0 <= i < v@.len() ==> (#[trigger] v@[i]).as_int() < stop.as_int()
                    &&& start.as_int() + v@.len() * step.as_int() >= stop.as_int()
                },
                Err(e) => start.as_int() >= stop.as_int() && e == VectorError::InvalidInterval,
            },
    {
        if !start.lt_val(stop) {
            return Err(VectorError::InvalidInterval);
        }
        let mut elements: Vec<T> = Vec::new();
        let mut current = start;
        proof {
            assert(start.as_int() + 0 * step.as_int() == start.as_int()) by (nonlinear_arith);
        }
        let mut go = current.lt_val(stop);
        while go
            invariant
                step.as_int() >= 1,
                start.as_int() < stop.as_int(),
                forall|n: int|
                    start.as_int() <= n < stop.as_int() + step.as_int() ==> #[trigger] T::in_range(
                        n,
                    ),
                current.as_int() == start.as_int() + elements@.len() * step.as_int(),
                go == (current.as_int() < stop.as_int()),
                !go ==> elements@.len() >= 1,
                current.as_int() >= start.as_int(),
                forall|i: int|
                    0 <= i < elements@.len() ==> (#[trigger] elements@[i]).as_int()
                        == start.as_int() + i * step.as_int(),
                forall|i: int|
                    0 <= i < elements@.len() ==> (#[trigger] elements@[i]).as_int()
                        < stop.as_int(),
            decreases (if current.as_int() < stop.as_int() {
                stop.as_int() - current.as_int()
            } else {
                0
            }),
        {
            let ghost k = elements@.len() as int;
            elements.push(current);
            current = current.add_val(step);
            proof {
                assert((k + 1) * step.as_int() == k * step.as_int() + step.as_int()) by (
                nonlinear_arith);
            }
            go = current.lt_val(stop);
        }
        Ok(Vector { elements })
    }

    /// The left-fold of all elements starting from the additive
    /// identity; an empty vector sums to zero. Every partial sum along
    /// the way must be representable.
    pub fn sum(&self) -> (r: T)
        requires
            forall|i: int| 0 <= i <= self@.len() ==> T::in_range(sum_as_int(#[trigger] self@.take(i))),
        ensures
            r.as_int() == sum_as_int(self@),
    {
        let n = self.elements.len();
        let mut acc = T::zero_val();
        let mut k: usize = 0;
        proof {
            assert(self@.take(0) =~= Seq::<T>::empty());
        }
        while k < n
            invariant
                k <= n,
                n == self@.len(),
                forall|i: int|
                    0 <= i <= n ==> T::in_range(sum_as_int(#[trigger] self@.take(i))),
                acc.as_int() == sum_as_int(self@.take(k as int)),
            decreases n - k,
        {
            proof {
                assert(self@.take(k + 1).drop_last() =~= self@.take(k as int));
                assert(self@.take(k + 1).last() == self@[k as int]);
            }
            acc = acc.add_val(self.elements[k]);
            k = k + 1;
        }
        proof {
            assert(self@.take(n as int) =~= self@);
        }
        acc
    }

    /// The greatest element of a non-empty vector: it occurs in the
    /// vector and no element exceeds it.
    pub fn max(&self) -> (r: T)
        requires
            self@.len() > 0,
        ensures
            exists|i: int| 0 <= i < self@.len() && r == self@[i],
            forall|i: int| 0 <= i < self@.len() ==> (#[trigger] self@[i]).as_int() <= r.as_int(),
    {
        let mut best = self.elements[0];
        let n = self.elements.len();
        let mut k: usize = 1;
        while k < n
            invariant
                1 <= k <= n,
                n == self@.len(),
                exists|i: int| 0 <= i < k && best == self@[i],
                forall|i: int| 0 <= i < k ==> (#[trigger] self@[i]).as_int() <= best.as_int(),
            decreases n - k,
        {
            if best.lt_val(self.elements[k]) {
                best = self.elements[k];
            }
            k = k + 1;
        }
        best
    }

    /// The least element of a non-empty vector: it occurs in the
    /// vector and no element lies below it.
    pub fn min(&self) -> (r: T)
        requires
            self@.len() > 0,
        ensures
            exists|i: int| 0 <= i < self@.len() && r == self@[i],
            forall|i: int| 0 <= i < self@.len() ==> (#[trigger] self@[i]).as_int() >= r.as_int(),
    {
        let mut best = self.elements[0];
        let n = self.elements.len();
        let mut k: usize = 1;
        while k < n
            invariant
                1 <= k <= n,
                n == self@.len(),
                exists|i: int| 0 <= i < k && best == self@[i],
                forall|i: int| 0 <= i < k ==> (#[trigger] self@[i]).as_int() >= best.as_int(),
            decreases n - k,
        {
            if self.elements[k].lt_val(best) {
                best = self.elements[k];
            }
            k = k + 1;
        }
        best
    }
}

/// The predicate a filtering criterion decides: the inputs on which the
/// callable can return `true`.
pub open spec fn keeps<T, F: Fn(T) -> bool>(criteria: F) -> spec_fn(T) -> bool {
    |x: T| call_ensures(criteria, (x,), true)
}

/// Appending one element to a sequence extends its filtered image by
/// that element exactly when the predicate holds of it.
proof fn lemma_filter_push<A>(s: Seq<A>, pred: spec_fn(A) -> bool, x: A)
    ensures
        s.push(x).filter(pred) == if pred(x) {
            s.filter(pred).push(x)
        } else {
            s.filter(pred)
        },
{
    reveal(Seq::filter);
    assert(s.push(x).drop_last() =~= s);
    assert(s.push(x).last() == x);
}

/// Exponentiation by squaring over the integer model of `T`. Every
/// power of the base up to `exp` must be representable.
fn pow_elem<T: Element>(base: T, exp: usize) -> (r: T)
    requires
        forall|k: nat| k <= exp ==> T::in_range(pow(base.as_int(), k)),
    ensures
        r.as_int() == pow(base.as_int(), exp as nat),
{
    let ghost b0 = base.as_int();
    let mut result = T::one_val();
    let mut b = base;
    let mut e: usize = exp;
    let ghost mut ra: nat = 0;
    let ghost mut eb: nat = 1;
    proof {
        lemma_pow0(b0);
        lemma_pow1(b0);
    }
    while e > 0
        invariant
            forall|k: nat| k <= exp ==> T::in_range(pow(b0, k)),
            b0 == base.as_int(),
            result.as_int() == pow(b0, ra),
            b.as_int() == pow(b0, eb),
            ra + e * eb == exp,
            eb >= 1,
        decreases e,
    {
        let ghost e0: nat = e as nat;
        let ghost ra0: nat = ra;
        let ghost eb0: nat = eb;
        if e % 2 == 1 {
            proof {
                assert(ra0 + eb0 <= exp) by (nonlinear_arith)
                    requires
                        ra0 + e0 * eb0 == exp,
                        e0 >= 1,
                        eb0 >= 1,
                ;
                lemma_pow_adds(b0, ra0, eb0);
            }
            result = result.mul_val(b);
            proof {
                ra = ra0 + eb0;
            }
        }
        e = e / 2;
        if e > 0 {
            proof {
                assert(2 * eb0 <= exp) by (nonlinear_arith)
                    requires
                        ra0 + e0 * eb0 == exp,
                        e0 >= 2,
                        eb0 >= 1,
                ;
                lemma_pow_adds(b0, eb0, eb0);
            }
            b = b.mul_val(b);
            proof {
                eb = 2 * eb0;
            }
        }
        proof {
            if e0 % 2 == 1 {
                if e0 / 2 > 0 {
                    assert(ra0 + eb0 + (e0 / 2) * (2 * eb0) == exp) by (nonlinear_arith)
                        requires
                            ra0 + e0 * eb0 == exp,
                            e0 % 2 == 1,
                    ;
                } else {
                    assert(ra0 + eb0 == exp) by (nonlinear_arith)
                        requires
                            ra0 + e0 * eb0 == exp,
                            e0 % 2 == 1,
                            e0 / 2 == 0,
                    ;
                }
            } else {
                assert(ra0 + (e0 / 2) * (2 * eb0) == exp) by (nonlinear_arith)
                    requires
                        ra0 + e0 * eb0 == exp,
                        e0 % 2 == 0,
                ;
            }
        }
    }
    proof {
        assert(ra == exp);
    }
    result
}

impl<T: Element> Vector<T> {
    /// Each element raised to the power `exp` by exponentiation by
    /// squaring; every intermediate power must be representable.
    pub fn power(&self, exp: usize) -> (r: Vector<T>)
        requires
            forall|i: int, k: nat|
                0 <= i < self@.len() && k <= exp ==> T::in_range(
                    #[trigger] pow(self@[i].as_int(), k),
                ),
        ensures
            r@.len() == self@.len(),
            forall|i: int|
                0 <= i < self@.len() ==> (#[trigger] r@[i]).as_int() == pow(
                    self@[i].as_int(),
                    exp as nat,
                ),
    {
        let n = self.elements.len();
        let mut elements: Vec<T> = Vec::new();
        let mut k: usize = 0;
        while k < n
            invariant
                k <= n,
                n == self@.len(),
                elements@.len() == k,
                forall|i: int, j: nat|
                    0 <= i < n && j <= exp ==> T::in_range(
                        #[trigger] pow(self@[i].as_int(), j),
                    ),
                forall|i: int|
                    0 <= i < k ==> (#[trigger] elements@[i]).as_int() == pow(
                        self@[i].as_int(),
                        exp as nat,
                    ),
            decreases n - k,
        {
            elements.push(pow_elem(self.elements[k], exp));
            k = k + 1;
        }
        Vector { elements }
    }
}

impl<T: Copy> Vector<T> {
    /// The elements that match the criterion, kept in their original
    /// order. The criterion must be callable on every element and must
    /// decide each value one way only.
    pub fn filter<F: Fn(T) -> bool>(&self, criteria: F) -> (r: Vector<T>)
        requires
            forall|x: T| #[trigger] criteria.requires((x,)),
            forall|x: T, b1: bool, b2: bool|
                criteria.ensures((x,), b1) && criteria.ensures((x,), b2) ==> b1 == b2,
        ensures
            r@ == self@.filter(keeps(criteria)),
    {
        let ghost pred = keeps(criteria);
        let n = self.elements.len();
        let mut elements: Vec<T> = Vec::new();
        let mut k: usize = 0;
        proof {
            reveal(Seq::filter);
            assert(self@.take(0) =~= Seq::<T>::empty());
        }
        while k < n
            invariant
                k <= n,
                n == self@.len(),
                forall|x: T| #[trigger] criteria.requires((x,)),
                forall|x: T, b1: bool, b2: bool|
                    criteria.ensures((x,), b1) && criteria.ensures((x,), b2) ==> b1 == b2,
                pred == keeps(criteria),
                elements@ == self@.take(k as int).filter(pred),
            decreases n - k,
        {
            let x = self.elements[k];
            let keep = criteria(x);
            proof {
                lemma_filter_push(self@.take(k as int), pred, x);
                assert(self@.take(k + 1) =~= self@.take(k as int).push(self@[k as int]));
                if keep {
                    assert(pred(x));
                } else {
                    assert(!pred(x));
                }
            }
            if keep {
                elements.push(x);
            }
            k = k + 1;
        }
        proof {
            assert(self@.take(n as int) =~= self@);
        }
        Vector { elements }
    }
}

impl<T: Copy> Vector<T> {
    /// A new, independently owned vector holding a copy of the
    /// contiguous sub-sequence from `begin` (inclusive) to `end`
    /// (exclusive). Bounds must satisfy `begin <= end <= length`;
    /// otherwise the call fails with an out-of-bounds error.
    pub fn slice_between(&self, begin: usize, end: usize) -> (r: Result<Vector<T>, VectorError>)
        ensures
            match r {
                Ok(v) => begin <= end <= self@.len() && v@ == self@.subrange(
                    begin as int,
                    end as int,
                ),
                Err(e) => !(begin <= end <= self@.len()) && e == VectorError::OutOfBounds,
            },
    {
        if !(begin <= end && end <= self.elements.len()) {
            return Err(VectorError::OutOfBounds);
        }
        let mut elements: Vec<T> = Vec::new();
        let mut k: usize = begin;
        while k < end
            invariant
                begin <= k <= end,
                end <= self@.len(),
                elements@.len() == k - begin,
                forall|i: int| 0 <= i < k - begin ==> elements@[i] == self@[begin + i],
            decreases end - k,
        {
            elements.push(self.elements[k]);
            k = k + 1;
        }
        proof {
            assert(elements@ =~= self@.subrange(begin as int, end as int));
        }
        Ok(Vector { elements })
    }
}

/// Law: slicing the full range of a vector addresses the whole of it,
/// so the copy that comes back equals the original. Together with the
/// contract of `slice_between`, taking the sub-sequence from zero to
/// the length changes nothing.
pub proof fn lemma_full_range_slice<T>(s: Seq<T>)
    ensures
        s.subrange(0, s.len() as int) == s,
{
    assert(s.subrange(0, s.len() as int) =~= s);
}

/// The family of slicing operations: every supported index shape
/// resolves to a contiguous sub-range of the vector and yields a new,
/// independently owned copy of it.
pub trait Slice<Idx> {
    /// The returned type after slicing.
    type Output;

    /// What the result of `slice` must satisfy for the given index.
    spec fn slice_ok(&self, index: Idx, r: &Self::Output) -> bool;

    /// Copy out the sub-sequence the index addresses.
    fn slice(&self, index: Idx) -> (r: Self::Output)
        ensures
            self.slice_ok(index, &r),
    ;
}

impl<T: Copy> Slice<core::ops::Range<usize>> for Vector<T> {
    type Output = Result<Vector<T>, VectorError>;

    open spec fn slice_ok(
        &self,
        index: core::ops::Range<usize>,
        r: &Result<Vector<T>, VectorError>,
    ) -> bool {
        match *r {
            Ok(v) => index.start <= index.end <= self@.len() && v@ == self@.subrange(
                index.start as int,
                index.end as int,
            ),
            Err(e) => !(index.start <= index.end <= self@.len()) && e
                == VectorError::OutOfBounds,
        }
    }

    fn slice(&self, index: core::ops::Range<usize>) -> (r: Result<Vector<T>, VectorError>) {
        self.slice_between(index.start, index.end)
    }
}

/// The prefix form `..end`, standing for the bounds `0 .. end`.
#[verifier::external_type_specification]
pub struct ExRangeTo<Idx>(core::ops::RangeTo<Idx>);

/// The suffix form `start..`, standing for the bounds
/// `start .. length`.
#[verifier::external_type_specification]
pub struct ExRangeFrom<Idx>(core::ops::RangeFrom<Idx>);

/// The full form `..`, standing for the bounds `0 .. length`.
#[verifier::external_type_specification]
pub struct ExRangeFull(core::ops::RangeFull);

/// The bounded inclusive form `start..=end`.
#[verifier::external_type_specification]
pub struct ExRangeToInclusive<Idx>(core::ops::RangeToInclusive<Idx>);

/// Relies on `core::ops::RangeInclusive::start`: it returns the lower
/// bound the range was created with.
pub assume_specification<Idx>[ core::ops::RangeInclusive::<Idx>::start ](
    r: &core::ops::RangeInclusive<Idx>,
) -> (ret: &Idx)
    ensures
        *ret == r@.start,
;

/// Relies on `core::ops::RangeInclusive::end`: it returns the upper
/// bound the range was created with.
pub assume_specification<Idx>[ core::ops::RangeInclusive::<Idx>::end ](
    r: &core::ops::RangeInclusive<Idx>,
) -> (ret: &Idx)
    ensures
        *ret == r@.end,
;

impl<T: Copy> Slice<core::ops::RangeTo<usize>> for Vector<T> {
    type Output = Result<Vector<T>, VectorError>;

    open spec fn slice_ok(
        &self,
        index: core::ops::RangeTo<usize>,
        r: &Result<Vector<T>, VectorError>,
    ) -> bool {
        match *r {
            Ok(v) => index.end <= self@.len() && v@ == self@.subrange(0, index.end as int),
            Err(e) => index.end > self@.len() && e == VectorError::OutOfBounds,
        }
    }

    fn slice(&self, index: core::ops::RangeTo<usize>) -> (r: Result<Vector<T>, VectorError>) {
        self.slice_between(0, index.end)
    }
}

impl<T: Copy> Slice<core::ops::RangeFrom<usize>> for Vector<T> {
    type Output = Result<Vector<T>, VectorError>;

    open spec fn slice_ok(
        &self,
        index: core::ops::RangeFrom<usize>,
        r: &Result<Vector<T>, VectorError>,
    ) -> bool {
        match *r {
            Ok(v) => index.start <= self@.len() && v@ == self@.subrange(
                index.start as int,
                self@.len() as int,
            ),
            Err(e) => index.start > self@.len() && e == VectorError::OutOfBounds,
        }
    }

    fn slice(&self, index: core::ops::RangeFrom<usize>) -> (r: Result<Vector<T>, VectorError>) {
        self.slice_between(index.start, self.elements.len())
    }
}

impl<T: Copy> Slice<core::ops::RangeFull> for Vector<T> {
    type Output = Result<Vector<T>, VectorError>;

    open spec fn slice_ok(
        &self,
        index: core::ops::RangeFull,
        r: &Result<Vector<T>, VectorError>,
    ) -> bool {
        match *r {
            Ok(v) => v@ == self@,
            Err(_) => false,
        }
    }

    fn slice(&self, index: core::ops::RangeFull) -> (r: Result<Vector<T>, VectorError>) {
        let r = self.slice_between(0, self.elements.len());
        proof {
            assert(self@.subrange(0, self@.len() as int) =~= self@);
        }
        r
    }
}

impl<T: Copy> Slice<core::ops::RangeInclusive<usize>> for Vector<T> {
    type Output = Result<Vector<T>, VectorError>;

    open spec fn slice_ok(
        &self,
        index: core::ops::RangeInclusive<usize>,
        r: &Result<Vector<T>, VectorError>,
    ) -> bool {
        match *r {
            Ok(v) => index@.start <= index@.end + 1 <= self@.len() && v@ == self@.subrange(
                index@.start as int,
                index@.end + 1,
            ),
            Err(e) => !(index@.start <= index@.end + 1 <= self@.len()) && e
                == VectorError::OutOfBounds,
        }
    }

    fn slice(
        &self,
        index: core::ops::RangeInclusive<usize>,
    ) -> (r: Result<Vector<T>, VectorError>) {
        let last = *index.end();
        if last >= self.elements.len() {
            return Err(VectorError::OutOfBounds);
        }
        self.slice_between(*index.start(), last + 1)
    }
}

impl<T: Copy> Slice<core::ops::RangeToInclusive<usize>> for Vector<T> {
    type Output = Result<Vector<T>, VectorError>;

    open spec fn slice_ok(
        &self,
        index: core::ops::RangeToInclusive<usize>,
        r: &Result<Vector<T>, VectorError>,
    ) -> bool {
        match *r {
            Ok(v) => index.end + 1 <= self@.len() && v@ == self@.subrange(0, index.end + 1),
            Err(e) => index.end + 1 > self@.len() && e == VectorError::OutOfBounds,
        }
    }

    fn slice(
        &self,
        index: core::ops::RangeToInclusive<usize>,
    ) -> (r: Result<Vector<T>, VectorError>) {
        if index.end >= self.elements.len() {
            return Err(VectorError::OutOfBounds);
        }
        self.slice_between(0, index.end + 1)
    }
}

/// Relies on `rand::distributions::Uniform`: `Uniform::new(low, high)`
/// demands `low < high` and the sampler then draws values uniformly
/// from the half-open interval `[low, high)`; `sample` feeds it the
/// thread-local generator. Nothing more is assumed of the draw: each
/// call may return any value in the interval.
#[verifier::external_body]
fn sample_uniform<T: Element + rand::distributions::uniform::SampleUniform>(
    low: T,
    high: T,
) -> (r: T)
    requires
        low.as_int() < high.as_int(),
    ensures
        low.as_int() <= r.as_int() < high.as_int(),
{
    let sampler = rand::distributions::Uniform::new(low, high);
    rand::distributions::Distribution::sample(&sampler, &mut rand::thread_rng())
}

impl<T: Element + rand::distributions::uniform::SampleUniform> Vector<T> {
    /// A numeric vector of `len` independent samples drawn uniformly
    /// from the half-open interval `[low, high)`: every element lies at
    /// or above `low` and strictly below `high`. Each call uses a
    /// fresh, unseeded source of entropy, so no two calls are promised
    /// to agree.
    pub fn uniform(len: usize, low: T, high: T) -> (r: Vector<T>)
        requires
            low.as_int() < high.as_int(),
        ensures
            r@.len() == len,
            forall|i: int|
                0 <= i < len ==> low.as_int() <= (#[trigger] r@[i]).as_int() < high.as_int(),
    {
        let mut elements: Vec<T> = Vec::new();
        let mut k: usize = 0;
        while k < len
            invariant
                k <= len,
                low.as_int() < high.as_int(),
                elements@.len() == k,
                forall|i: int|
                    0 <= i < k ==> low.as_int() <= (#[trigger] elements@[i]).as_int()
                        < high.as_int(),
            decreases len - k,
        {
            elements.push(sample_uniform(low, high));
            k = k + 1;
        }
        Vector { elements }
    }
}

impl<T: Copy> Vector<T> {
    /// The closing step of building a linearly spaced sequence of
    /// `len` values ending exactly at `stop`: an accumulation that
    /// produced either `len` or `len - 1` values has its last slot
    /// overwritten with `stop`, or `stop` appended, so that the result
    /// holds exactly `len` values, ends in the literal `stop`, and
    /// keeps the first `len - 1` accumulated values unchanged.
    pub fn complete_linspace(partial: Vec<T>, len: usize, stop: T) -> (r: Vector<T>)
        requires
            len >= 1,
            partial@.len() == len || partial@.len() + 1 == len,
        ensures
            r@.len() == len,
            r@[len - 1] == stop,
            forall|i: int| 0 <= i < len - 1 ==> r@[i] == partial@[i],
    {
        let mut elements = partial;
        if elements.len() == len {
            elements[len - 1] = stop;
        } else {
            elements.push(stop);
        }
        Vector { elements }
    }
}

impl<T: Element> PartialEq for Vector<T> {
    fn eq(&self, other: &Self) -> (r: bool) {
        self.equals(other)
    }
}

impl<T: Element> vstd::std_specs::cmp::PartialEqSpecImpl for Vector<T> {
    open spec fn obeys_eq_spec() -> bool {
        true
    }

    open spec fn eq_spec(&self, other: &Self) -> bool {
        self@ == other@
    }
}

} // verus!
