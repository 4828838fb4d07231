//! A generic numeric-vector library.
//!
//! The central type is [`Vector`], an owned, ordered sequence of numeric
//! values. Builders construct vectors with a requested shape and fill
//! policy (`full`, `zeros`, `ones`, `range`, `uniform`), and an operator
//! layer provides elementwise arithmetic with scalar broadcasting,
//! reductions, filtering and slicing.
//!
//! Every element type is modelled by the [`Element`] trait, which maps
//! values to mathematical integers; all contracts are stated over that
//! model.

mod builders;
mod element;
mod errors;
mod vector;

pub use builders::four_dim;
pub use builders::one_dim;
pub use builders::three_dim;
pub use builders::two_dim;
pub use builders::One;
pub use builders::OneFill;
pub use element::Element;
pub use errors::VectorError;
pub use vector::keeps;
pub use vector::lemma_from_vec_spec;
pub use vector::lemma_full_range_slice;
pub use vector::sum_as_int;
pub use vector::Slice;
pub use vector::Vector;
