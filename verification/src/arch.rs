//! x86-64 paging: the page sizes that a page table maps, and the decisions
//! of the walk down the four levels of page tables that maps a page.
//!
//! The walk starts at the top-level table and, at each level, reads the
//! entry that nine bits of the frame address select. At the level whose
//! entries map pages of the requested size it inspects that entry: a
//! present entry refuses the mapping, an absent one receives the page.
//! Reading and writing the tables themselves is left to the caller, which
//! hands each entry it reads back to the walk.

use vstd::prelude::*;
use vstd::arithmetic::power2::{pow2, lemma_pow2_strictly_increases};
use crate::bitops::bits_u64;
use crate::bitops::model::{bit_is_set, bit_field, lemma_bit_field_bound};
use crate::mem::{PageSize, Page, PageFrame, PhysAddr, is_power_of_two};

verus! {

/// Represents a 4 KiB page size.
#[derive(Debug, Clone, Copy)]
pub struct PageSize4KB;

impl PageSize for PageSize4KB {
    const SIZE: usize = 0x1000;

    proof fn lemma_size()
        ensures
            Self::SIZE == 0x1000,
    {
        vstd::arithmetic::power2::lemma2_to64();
        assert(pow2(12) == 0x1000);
    }
}

/// Represents a 2 MiB page size.
#[derive(Debug, Clone, Copy)]
pub struct PageSize2MB;

impl PageSize for PageSize2MB {
    const SIZE: usize = 0x20_0000;

    proof fn lemma_size()
        ensures
            Self::SIZE == 0x20_0000,
    {
        vstd::arithmetic::power2::lemma2_to64();
        assert(pow2(21) == 0x20_0000);
    }
}

/// Represents a 1 GiB page size.
#[derive(Debug, Clone, Copy)]
pub struct PageSize1GB;

impl PageSize for PageSize1GB {
    const SIZE: usize = 0x4000_0000;

    proof fn lemma_size()
        ensures
            Self::SIZE == 0x4000_0000,
    {
        vstd::arithmetic::power2::lemma2_to64();
        assert(pow2(30) == 0x4000_0000);
    }
}

/// Why a page could not be mapped.
#[derive(Debug, Clone, Copy, PartialEq, Eq, Structural)]
pub enum MapError {
    /// The entry for the page is already present.
    AlreadyMapped,
    /// A page table on the way could not be reached.
    CannotAccess,
}

/// Whether a page size is one that x86-64 page tables map: 4 KiB, 2 MiB or
/// 1 GiB.
pub open spec fn is_mappable_size(size: nat) -> bool {
    size == 0x1000 || size == 0x20_0000 || size == 0x4000_0000
}

/// The position of the lowest address bit that the entries at the level of
/// pages of the given size translate (the base-two logarithm of the size).
pub open spec fn size_shift(size: nat) -> nat {
    if size == 0x1000 {
        12
    } else if size == 0x20_0000 {
        21
    } else {
        30
    }
}

/// The position of the lowest address bit that the top-level table
/// translates, plus nine: the walk starts here.
pub open spec fn top_shift() -> nat {
    48
}

proof fn lemma_size_shift(size: nat)
    requires
        is_mappable_size(size),
    ensures
        pow2(size_shift(size)) == size,
        is_power_of_two(size),
{
    vstd::arithmetic::power2::lemma2_to64();
}

/// The state of a walk that maps a page of `size` bytes over the frame
/// address `frame_addr`: `shift` is the lowest address bit that the table
/// the walk is at translates, plus nine.
pub struct MapWalk {
    frame_addr: u64,
    shift: u32,
    size: u64,
}

impl MapWalk {
    /// The frame address whose bits select the entries.
    pub closed spec fn frame_addr(self) -> nat {
        self.frame_addr as nat
    }

    /// The size of the page being mapped.
    pub closed spec fn page_size(self) -> nat {
        self.size as nat
    }

    /// The lowest address bit that the table the walk is at translates,
    /// plus nine.
    pub closed spec fn shift(self) -> nat {
        self.shift as nat
    }

    /// The number of levels that the walk has still to descend.
    pub open spec fn levels_left(self) -> nat {
        ((self.shift() - size_shift(self.page_size())) / 9) as nat
    }

    /// Whether the walk has reached the entry that maps the page.
    pub open spec fn done(self) -> bool {
        self.shift() == size_shift(self.page_size())
    }

    /// The walk descends in steps of nine bits from the top level to the
    /// level of its page size.
    pub closed spec fn wf(self) -> bool {
        &&& is_mappable_size(self.size as nat)
        &&& size_shift(self.size as nat) <= self.shift <= top_shift()
        &&& (self.shift - size_shift(self.size as nat)) % 9 == 0
    }

    /// Starts the walk that maps a page of size `S::SIZE` over `frame`, at
    /// the top-level table.
    pub fn new<S: PageSize>(frame: PageFrame<S>) -> (w: Self)
        requires
            is_mappable_size(S::SIZE as nat),
        ensures
            w.wf(),
            w.frame_addr() == frame@,
            w.page_size() == S::SIZE,
            w.shift() == top_shift(),
            w.levels_left() == (top_shift() - size_shift(S::SIZE as nat)) / 9,
    {
        MapWalk { frame_addr: frame.addr().as_u64(), shift: 12 + 9 * 4, size: S::SIZE as u64 }
    }

    /// Descends one level: returns the index of the entry to read in the
    /// table the walk is at, and whether that entry is the one that maps the
    /// page. Otherwise the entry refers to the next table.
    pub fn next_entry(&mut self) -> (r: (usize, bool))
        requires
            old(self).wf(),
            !old(self).done(),
        ensures
            final(self).wf(),
            final(self).frame_addr() == old(self).frame_addr(),
            final(self).page_size() == old(self).page_size(),
            final(self).shift() == old(self).shift() - 9,
            final(self).levels_left() == old(self).levels_left() - 1,
            r.0 as nat == bit_field(
                old(self).frame_addr(),
                final(self).shift(),
                final(self).shift() + 9,
            ),
            r.0 < 512,
            r.1 == final(self).done(),
    {
        let shift = self.shift - 9;
        self.shift = shift;
        let index = bits_u64::get_bits(self.frame_addr, shift, shift + 9);
        proof {
            lemma_bit_field_bound(self.frame_addr as nat, shift as nat, shift as nat + 9, shift as nat + 9);
            vstd::arithmetic::power2::lemma2_to64();
            vstd::arithmetic::power2::lemma_pow2_pos(self.shift as nat);
            vstd::bits::lemma_u64_pow2_no_overflow(self.shift as nat);
            vstd::bits::lemma_u64_shl_is_mul(1, self.shift as u64);
            lemma_size_shift(self.size as nat);
            let leaf = size_shift(self.size as nat);
            if self.shift as nat > leaf {
                lemma_pow2_strictly_increases(leaf, self.shift as nat);
            }
            assert((1u64 << shift) == (1u64 << (shift as u64))) by (bit_vector)
                requires
                    shift < 64,
            ;
        }
        (index as usize, (1u64 << shift) == self.size)
    }

    /// The physical address of the table that a directory entry refers to:
    /// the entry with its low twelve bits cleared.
    pub fn next_table(entry: u64) -> (r: PhysAddr)
        ensures
            r@ == entry - entry % 0x1000,
    {
        proof {
            assert(entry >> 12 << 12 == entry - entry % 0x1000) by (bit_vector);
        }
        PhysAddr::new(entry >> 12 << 12)
    }

    /// Decides what to do with the entry that maps the page: a present entry
    /// (bit 0 set) refuses the mapping; otherwise the entry is to be written
    /// with the start address of the page and its present bit.
    pub fn leaf_value<S: PageSize>(entry: u64, page: Page<S>) -> (r: Result<u64, MapError>)
        requires
            page.wf(),
            is_mappable_size(S::SIZE as nat),
        ensures
            r is Err <==> bit_is_set(entry as nat, 0),
            r matches Err(e) ==> e == MapError::AlreadyMapped,
            r matches Ok(v) ==> v == page@ as nat + 1 && bit_is_set(v as nat, 0),
    {
        if bits_u64::get_bit(entry, 0) {
            return Err(MapError::AlreadyMapped);
        }
        let start = page.start().as_usize() as u64;
        proof {
            page.lemma_aligned();
            let sz = S::SIZE as nat;
            let st = start as nat;
            assert(st % 2 == 0) by (nonlinear_arith)
                requires
                    st % sz == 0,
                    sz == 0x1000 || sz == 0x20_0000 || sz == 0x4000_0000,
            ;
            assert(start | 1 == start + 1) by (bit_vector)
                requires
                    start % 2 == 0,
            ;
            vstd::arithmetic::power2::lemma2_to64();
        }
        Ok(start | 1)
    }
}

/// The walk reads four entries for a 4 KiB page, three for a 2 MiB page
/// and two for a 1 GiB page: it stops at the level whose entries map pages
/// of the requested size.
pub proof fn law_walk_levels(size: nat)
    requires
        is_mappable_size(size),
    ensures
        (top_shift() - size_shift(size)) / 9 == if size == 0x1000 {
            4nat
        } else if size == 0x20_0000 {
            3nat
        } else {
            2nat
        },
{
}

/// The entry that the walk writes for a page, read back as a table address,
/// gives the start of the page: the present bit does not disturb the
/// address.
pub proof fn law_written_entry_address(start: nat)
    requires
        start % 0x1000 == 0,
    ensures
        (start + 1) - (start + 1) % 0x1000 == start,
{
}

} // verus!
