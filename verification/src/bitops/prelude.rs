//! The prelude.

pub use crate::bitops::{BitOps, bits_u8, bits_u16, bits_u32, bits_u64, bits_u128, bits_usize};
pub use crate::bitops::range::BitRange;
