//! A vector-like container that packs values of differing size and alignment
//! into one growable byte region and hands them back in insertion order.

pub mod arena;
pub mod array;
pub mod blob;
pub mod dstvec;
pub mod iter;
pub mod layout;
pub mod traits;

pub use crate::blob::{Blob, BlobMeta};
pub use crate::dstvec::DSTVec;
pub use crate::iter::{IntoIter, Iter};
pub use crate::traits::Referent;
