//! Storage-ownership layer for a multidimensional array type.
//!
//! The crate models how array element storage is owned, shared,
//! duplicated, and made safely mutable:
//!
//! - [`pool`] holds the reference-counted buffer store that backs every
//!   shared buffer.
//! - [`data_traits`] defines the four storage variants (owned buffer,
//!   shared buffer, immutable view, mutable view) and the capability
//!   traits they implement, including the copy-on-write promotion
//!   protocol.
//! - [`arraybase`] defines the array handle: a storage variant together
//!   with a dimension descriptor, a stride descriptor, and the current
//!   element offset into the backing buffer.
//! - [`arrayformat`] renders an array's elements, given in logical
//!   (row-major) order, as a multiline string with per-axis ellipsis
//!   elision.

pub mod arraybase;
pub mod arrayformat;
pub mod data_traits;
pub mod dimension;
pub mod pool;
