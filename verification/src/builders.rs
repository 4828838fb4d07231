//! Shape-directed builders for nested vectors.
//!
//! A nested vector (`Vec<T>`, `Vec<Vec<T>>`, ...) can be built with a
//! requested shape and then refilled with ones while keeping that
//! shape. The refill is expressed through two traits: [`OneFill`]
//! describes, for scalars and for nested vectors alike, what "the same
//! shape, every scalar one" means, and [`One`] exposes the refill
//! operation itself on nested vectors.

use crate::element::Element;
use vstd::prelude::*;

verus! {

/// A value that can produce a companion of the same shape whose
/// scalars are all one: for a scalar that companion is the number one
/// itself, for a nested vector it is the elementwise companion.
pub trait OneFill: Sized {
    /// Whether `r` has the same shape as `self` with every scalar
    /// equal to one.
    spec fn is_ones(&self, r: &Self) -> bool;

    /// Produce the all-ones companion of `self`.
    fn to_ones(&self) -> (r: Self)
        ensures
            self.is_ones(&r),
    ;
}

impl OneFill for u8 {
    open spec fn is_ones(&self, r: &Self) -> bool {
        r.as_int() == 1
    }

    fn to_ones(&self) -> (r: Self) {
        1
    }
}

impl OneFill for u16 {
    open spec fn is_ones(&self, r: &Self) -> bool {
        r.as_int() == 1
    }

    fn to_ones(&self) -> (r: Self) {
        1
    }
}

impl OneFill for u32 {
    open spec fn is_ones(&self, r: &Self) -> bool {
        r.as_int() == 1
    }

    fn to_ones(&self) -> (r: Self) {
        1
    }
}

impl OneFill for u64 {
    open spec fn is_ones(&self, r: &Self) -> bool {
        r.as_int() == 1
    }

    fn to_ones(&self) -> (r: Self) {
        1
    }
}

impl OneFill for u128 {
    open spec fn is_ones(&self, r: &Self) -> bool {
        r.as_int() == 1
    }

    fn to_ones(&self) -> (r: Self) {
        1
    }
}

impl OneFill for usize {
    open spec fn is_ones(&self, r: &Self) -> bool {
        r.as_int() == 1
    }

    fn to_ones(&self) -> (r: Self) {
        1
    }
}

impl OneFill for i8 {
    open spec fn is_ones(&self, r: &Self) -> bool {
        r.as_int() == 1
    }

    fn to_ones(&self) -> (r: Self) {
        1
    }
}

impl OneFill for i16 {
    open spec fn is_ones(&self, r: &Self) -> bool {
        r.as_int() == 1
    }

    fn to_ones(&self) -> (r: Self) {
        1
    }
}

impl OneFill for i32 {
    open spec fn is_ones(&self, r: &Self) -> bool {
        r.as_int() == 1
    }

    fn to_ones(&self) -> (r: Self) {
        1
    }
}

impl OneFill for i64 {
    open spec fn is_ones(&self, r: &Self) -> bool {
        r.as_int() == 1
    }

    fn to_ones(&self) -> (r: Self) {
        1
    }
}

impl OneFill for i128 {
    open spec fn is_ones(&self, r: &Self) -> bool {
        r.as_int() == 1
    }

    fn to_ones(&self) -> (r: Self) {
        1
    }
}

impl<T: OneFill> OneFill for Vec<T> {
    open spec fn is_ones(&self, r: &Self) -> bool {
        &&& r@.len() == self@.len()
        &&& forall|i: int| 0 <= i < self@.len() ==> self@[i].is_ones(&(#[trigger] r@[i]))
    }

    fn to_ones(&self) -> (r: Self) {
        let n = self.len();
        let mut out: Vec<T> = Vec::new();
        let mut k: usize = 0;
        while k < n
            invariant
                k <= n,
                n == self@.len(),
                out@.len() == k,
                forall|i: int| 0 <= i < k ==> self@[i].is_ones(&(#[trigger] out@[i])),
            decreases n - k,
        {
            let filled = self[k].to_ones();
            out.push(filled);
            k = k + 1;
        }
        out
    }
}

/// A nested vector full of ones: the receiver's shape is kept, every
/// scalar of the result is one, and the receiver itself is left as it
/// was.
pub trait One: Sized {
    /// Whether `r` is the all-ones companion of `self`.
    spec fn ones_ok(&self, r: &Self) -> bool;

    /// Return a new vector of the same shape as `self`, filled with
    /// ones.
    fn ones(&mut self) -> (r: Self)
        ensures
            old(self).ones_ok(&r),
            *final(self) == *old(self),
    ;
}

impl<T: OneFill> One for Vec<T> {
    open spec fn ones_ok(&self, r: &Self) -> bool {
        self.is_ones(r)
    }

    fn ones(&mut self) -> (r: Self) {
        self.to_ones()
    }
}

/// A one-dimensional vector of the given size, filled with zeros.
pub fn one_dim<T: Element>(size: usize) -> (r: Vec<T>)
    ensures
        r@.len() == size,
        forall|i: int| 0 <= i < size ==> (#[trigger] r@[i]).as_int() == 0,
{
    let mut out: Vec<T> = Vec::new();
    let mut k: usize = 0;
    while k < size
        invariant
            k <= size,
            out@.len() == k,
            forall|i: int| 0 <= i < k ==> (#[trigger] out@[i]).as_int() == 0,
        decreases size - k,
    {
        out.push(T::zero_val());
        k = k + 1;
    }
    out
}

/// A two-dimensional vector of the given shape, filled with zeros.
pub fn two_dim<T: Element>(rows: usize, cols: usize) -> (r: Vec<Vec<T>>)
    ensures
        r@.len() == rows,
        forall|i: int| 0 <= i < rows ==> (#[trigger] r@[i])@.len() == cols,
        forall|i: int, j: int|
            0 <= i < rows && 0 <= j < cols ==> (#[trigger] r@[i]@[j]).as_int() == 0,
{
    let mut out: Vec<Vec<T>> = Vec::new();
    let mut k: usize = 0;
    while k < rows
        invariant
            k <= rows,
            out@.len() == k,
            forall|i: int| 0 <= i < k ==> (#[trigger] out@[i])@.len() == cols,
            forall|i: int, j: int|
                0 <= i < k && 0 <= j < cols ==> (#[trigger] out@[i]@[j]).as_int() == 0,
        decreases rows - k,
    {
        out.push(one_dim(cols));
        k = k + 1;
    }
    out
}

/// A three-dimensional vector of the given shape, filled with zeros.
pub fn three_dim<T: Element>(pages: usize, rows: usize, cols: usize) -> (r: Vec<Vec<Vec<T>>>)
    ensures
        r@.len() == pages,
        forall|i: int| 0 <= i < pages ==> (#[trigger] r@[i])@.len() == rows,
        forall|i: int, j: int|
            0 <= i < pages && 0 <= j < rows ==> (#[trigger] r@[i]@[j])@.len() == cols,
        forall|i: int, j: int, l: int|
            0 <= i < pages && 0 <= j < rows && 0 <= l < cols ==> (#[trigger] r@[i]@[j]@[l]).as_int() == 0,
{
    let mut out: Vec<Vec<Vec<T>>> = Vec::new();
    let mut k: usize = 0;
    while k < pages
        invariant
            k <= pages,
            out@.len() == k,
            forall|i: int| 0 <= i < k ==> (#[trigger] out@[i])@.len() == rows,
            forall|i: int, j: int|
                0 <= i < k && 0 <= j < rows ==> (#[trigger] out@[i]@[j])@.len() == cols,
            forall|i: int, j: int, l: int|
                0 <= i < k && 0 <= j < rows && 0 <= l < cols ==> (#[trigger] out@[i]@[j]@[l]).as_int() == 0,
        decreases pages - k,
    {
        out.push(two_dim(rows, cols));
        k = k + 1;
    }
    out
}

/// A four-dimensional vector of the given shape, filled with zeros.
pub fn four_dim<T: Element>(
    blocks: usize,
    pages: usize,
    rows: usize,
    cols: usize,
) -> (r: Vec<Vec<Vec<Vec<T>>>>)
    ensures
        r@.len() == blocks,
        forall|i: int| 0 <= i < blocks ==> (#[trigger] r@[i])@.len() == pages,
        forall|i: int, j: int|
            0 <= i < blocks && 0 <= j < pages ==> (#[trigger] r@[i]@[j])@.len() == rows,
        forall|i: int, j: int, l: int|
            0 <= i < blocks && 0 <= j < pages && 0 <= l < rows ==> (#[trigger] r@[i]@[j]@[l])@.len() == cols,
        forall|i: int, j: int, l: int, m: int|
            0 <= i < blocks && 0 <= j < pages && 0 <= l < rows && 0 <= m < cols ==> (#[trigger] r@[i]@[j]@[l]@[m]).as_int() == 0,
{
    let mut out: Vec<Vec<Vec<Vec<T>>>> = Vec::new();
    let mut k: usize = 0;
    while k < blocks
        invariant
            k <= blocks,
            out@.len() == k,
            forall|i: int| 0 <= i < k ==> (#[trigger] out@[i])@.len() == pages,
            forall|i: int, j: int|
                0 <= i < k && 0 <= j < pages ==> (#[trigger] out@[i]@[j])@.len() == rows,
            forall|i: int, j: int, l: int|
                0 <= i < k && 0 <= j < pages && 0 <= l < rows ==> (#[trigger] out@[i]@[j]@[l])@.len() == cols,
            forall|i: int, j: int, l: int, m: int|
                0 <= i < k && 0 <= j < pages && 0 <= l < rows && 0 <= m < cols ==> (#[trigger] out@[i]@[j]@[l]@[m]).as_int() == 0,
        decreases blocks - k,
    {
        out.push(three_dim(pages, rows, cols));
        k = k + 1;
    }
    out
}

} // verus!
