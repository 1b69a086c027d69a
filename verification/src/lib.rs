//! Bit operations on the unsigned integer types, addresses, pages and
//! page frames, page attributes, the x86-64 page-table walk that maps a
//! page, and the layout of the memory-map listing that the loader shows.

use vstd::prelude::*;

pub mod bitops;
pub mod mem;
pub mod paging;
pub mod arch;
pub mod loader;

verus! {


} // verus!
