//! A fixed-capacity sequence container: a vector that holds at most `N`
//! elements, with `N` fixed in its type, and never grows beyond it.
//!
//! Every operation is specified over the container's view, the mathematical
//! sequence of its live elements, and proved against its contract.

pub mod bulk;
pub mod construct;
mod copy;
pub mod dedup;
pub mod element;
pub mod filter;
pub mod laws;
pub mod model;
pub mod sort;
pub mod static_vec;

pub use crate::static_vec::StaticVec;
