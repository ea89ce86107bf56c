//! Locality-sensitive hashing of byte streams.
//!
//! A `TlshBuilder` consumes a byte stream incrementally and can be finalized
//! into a `Tlsh` digest: a compact, quantized summary of the stream.  Two
//! digests can be compared with a bounded distance metric, so that small
//! changes to the input produce small distances.

use vstd::prelude::*;

pub mod builder;
pub mod decode;
pub mod digest;
pub mod distance;
pub mod encode;
pub mod error;
pub mod length;
pub mod quartiles;
pub mod tables;

pub use builder::{BucketKind, ChecksumKind, TlshBuilder, Version};
pub use digest::Tlsh;
pub use error::TlshError;
pub use length::l_capturing;
pub use quartiles::find_quartiles;
pub use tables::b_mapping;
