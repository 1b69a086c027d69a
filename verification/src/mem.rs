//! Physical and virtual addresses, pages and page frames.

use vstd::prelude::*;
use vstd::arithmetic::power2::{pow2, lemma_pow2_strictly_increases};
use vstd::bits::low_bits_mask;
use core::marker::PhantomData;
use core::cmp::Ordering;
use vstd::std_specs::cmp::PartialOrdSpecImpl;
use vstd::std_specs::cmp::PartialOrdIs;

verus! {

/// Whether `n` is a power of two.
pub open spec fn is_power_of_two(n: nat) -> bool {
    exists|k: nat| pow2(k) == n
}

/// A power of two below `2^w` is `2^k` for some `k < w`, and `n - 1` is the
/// mask of its low `k` bits.
proof fn lemma_power_of_two_below(n: nat, w: nat) -> (k: nat)
    requires
        is_power_of_two(n),
        n < pow2(w),
    ensures
        k < w,
        pow2(k) == n,
        low_bits_mask(k) == n - 1,
{
    let k = choose|k: nat| pow2(k) == n;
    if k >= w {
        if k > w {
            lemma_pow2_strictly_increases(w, k);
        }
    }
    vstd::arithmetic::power2::lemma_pow2_pos(k);
    k
}

/// `x & (a - 1)` is `x % a` for a power of two `a` of 64 bits.
proof fn lemma_u64_mask_is_mod(x: u64, a: u64)
    requires
        is_power_of_two(a as nat),
    ensures
        a > 0,
        x & ((a - 1) as u64) == x % a,
{
    vstd::arithmetic::power2::lemma2_to64();
    let k = lemma_power_of_two_below(a as nat, 64);
    vstd::bits::lemma_u64_low_bits_mask_is_mod(x, k);
}

/// `x & (a - 1)` is `x % a` for a power of two `a` of pointer width.
proof fn lemma_usize_mask_is_mod(x: usize, a: usize)
    requires
        is_power_of_two(a as nat),
    ensures
        a > 0,
        x & ((a - 1) as usize) == x % a,
{
    vstd::arithmetic::power2::lemma2_to64();
    let k = lemma_power_of_two_below(a as nat, usize::BITS as nat);
    vstd::bits::lemma_usize_low_bits_mask_is_mod(x, k);
}

/// Represents a physical address.
#[derive(Debug, Clone, Copy, PartialEq, Eq, Structural, Hash, Ord)]
pub struct PhysAddr(u64);

impl View for PhysAddr {
    type V = u64;

    closed spec fn view(&self) -> u64 {
        self.0
    }
}

impl PartialOrd for PhysAddr {
    fn partial_cmp(&self, other: &Self) -> (r: Option<Ordering>) {
        if self.0 < other.0 {
            Some(Ordering::Less)
        } else if self.0 == other.0 {
            Some(Ordering::Equal)
        } else {
            Some(Ordering::Greater)
        }
    }
}

impl PartialOrdSpecImpl for PhysAddr {
    open spec fn obeys_partial_cmp_spec() -> bool {
        true
    }

    /// Addresses are ordered as the numbers they hold.
    open spec fn partial_cmp_spec(&self, other: &Self) -> Option<Ordering> {
        if self@ < other@ {
            Some(Ordering::Less)
        } else if self@ == other@ {
            Some(Ordering::Equal)
        } else {
            Some(Ordering::Greater)
        }
    }
}

impl PhysAddr {
    /// Creates a new physical address from the 64-bit address.
    pub fn new(addr: u64) -> (r: Self)
        ensures
            r@ == addr,
    {
        Self(addr)
    }

    /// Acquires the 64-bit representation of the address.
    pub fn as_u64(self) -> (r: u64)
        ensures
            r == self@,
    {
        self.0
    }

    /// Returns whether the address is aligned.
    ///
    /// `align` must be a power of two.
    pub fn is_aligned(self, align: u64) -> (r: bool)
        requires
            is_power_of_two(align as nat),
        ensures
            r == (self@ % align == 0),
    {
        proof {
            lemma_u64_mask_is_mod(self.0, align);
        }
        self.0 & (align - 1) == 0
    }
}

impl From<u64> for PhysAddr {
    fn from(value: u64) -> (r: Self) {
        Self::new(value)
    }
}

impl vstd::std_specs::convert::FromSpecImpl<u64> for PhysAddr {
    open spec fn obeys_from_spec() -> bool {
        true
    }

    closed spec fn from_spec(v: u64) -> Self {
        PhysAddr(v)
    }
}

impl From<PhysAddr> for u64 {
    fn from(value: PhysAddr) -> (r: Self) {
        value.as_u64()
    }
}

impl vstd::std_specs::convert::FromSpecImpl<PhysAddr> for u64 {
    open spec fn obeys_from_spec() -> bool {
        true
    }

    open spec fn from_spec(v: PhysAddr) -> Self {
        v@
    }
}


/// Two physical addresses are equal exactly when the numbers they hold
/// are, and one is below the other exactly when its number is.
pub proof fn law_phys_addr_order(p: PhysAddr, q: PhysAddr)
    ensures
        p == q <==> p@ == q@,
        p.is_lt(&q) <==> p@ < q@,
        p.is_le(&q) <==> p@ <= q@,
        p.is_gt(&q) <==> p@ > q@,
        p.is_ge(&q) <==> p@ >= q@,
{
}

/// Converting an address to a `PhysAddr` gives the `PhysAddr` of that
/// address; converting it back gives the address, and converting a
/// `PhysAddr` to its address and back gives the `PhysAddr`.
pub proof fn law_phys_addr_round_trip(addr: u64, p: PhysAddr)
    ensures
        (<PhysAddr as vstd::std_specs::convert::FromSpec<u64>>::from_spec(addr))@ == addr,
        <u64 as vstd::std_specs::convert::FromSpec<PhysAddr>>::from_spec(
            <PhysAddr as vstd::std_specs::convert::FromSpec<u64>>::from_spec(addr),
        ) == addr,
        <PhysAddr as vstd::std_specs::convert::FromSpec<u64>>::from_spec(
            <u64 as vstd::std_specs::convert::FromSpec<PhysAddr>>::from_spec(p),
        ) == p,
{
}

/// The smallest multiple of `align` that is not below `x`.
pub open spec fn round_up(x: nat, align: nat) -> nat {
    (((x + align - 1) as nat) / align) * align
}

/// Rounding down to a power of two gives the multiple of it that is at or
/// below the address and less than one alignment away.
pub proof fn law_align_down(x: nat, align: nat)
    requires
        is_power_of_two(align),
    ensures
        ((x - x % align) as nat) % align == 0,
        x - x % align <= x < x - x % align + align,
{
    let k = choose|k: nat| pow2(k) == align;
    vstd::arithmetic::power2::lemma_pow2_pos(k);
    vstd::arithmetic::div_mod::lemma_fundamental_div_mod(x as int, align as int);
    vstd::arithmetic::div_mod::lemma_mod_pos_bound(x as int, align as int);
    vstd::arithmetic::div_mod::lemma_mod_multiples_basic((x / align) as int, align as int);
    let q = x / align;
    let r = x % align;
    assert(x - r == q * align) by (nonlinear_arith)
        requires
            x == align * q + r,
    ;
}

/// Rounding up to a power of two gives the multiple of it that is at or
/// above the address and less than one alignment away.
pub proof fn law_align_up(x: nat, align: nat)
    requires
        is_power_of_two(align),
    ensures
        round_up(x, align) % align == 0,
        x <= round_up(x, align) < x + align,
{
    let k = choose|k: nat| pow2(k) == align;
    vstd::arithmetic::power2::lemma_pow2_pos(k);
    let y = (x + align - 1) as nat;
    vstd::arithmetic::div_mod::lemma_fundamental_div_mod(y as int, align as int);
    vstd::arithmetic::div_mod::lemma_mod_pos_bound(y as int, align as int);
    vstd::arithmetic::div_mod::lemma_mod_multiples_basic((y / align) as int, align as int);
    let q = y / align;
    let r = y % align;
    assert(y - r == q * align) by (nonlinear_arith)
        requires
            y == align * q + r,
    ;
    assert(round_up(x, align) == q * align);
}

/// Represents a virtual address.
#[derive(Debug, Clone, Copy, PartialEq, Eq, Structural, Hash, Ord)]
pub struct VirtAddr(usize);

impl View for VirtAddr {
    type V = usize;

    closed spec fn view(&self) -> usize {
        self.0
    }
}

impl PartialOrd for VirtAddr {
    fn partial_cmp(&self, other: &Self) -> (r: Option<Ordering>) {
        if self.0 < other.0 {
            Some(Ordering::Less)
        } else if self.0 == other.0 {
            Some(Ordering::Equal)
        } else {
            Some(Ordering::Greater)
        }
    }
}

impl PartialOrdSpecImpl for VirtAddr {
    open spec fn obeys_partial_cmp_spec() -> bool {
        true
    }

    /// Addresses are ordered as the numbers they hold.
    open spec fn partial_cmp_spec(&self, other: &Self) -> Option<Ordering> {
        if self@ < other@ {
            Some(Ordering::Less)
        } else if self@ == other@ {
            Some(Ordering::Equal)
        } else {
            Some(Ordering::Greater)
        }
    }
}

impl VirtAddr {
    /// Creates a new virtual address from the pointer-sized address.
    pub fn new(addr: usize) -> (r: Self)
        ensures
            r@ == addr,
    {
        Self(addr)
    }

    /// Acquires the pointer-sized representation of the address.
    pub fn as_usize(self) -> (r: usize)
        ensures
            r == self@,
    {
        self.0
    }

    /// Returns whether the address is aligned.
    ///
    /// `align` must be a power of two.
    pub fn is_aligned(self, align: usize) -> (r: bool)
        requires
            is_power_of_two(align as nat),
        ensures
            r == (self@ % align == 0),
    {
        proof {
            lemma_usize_mask_is_mod(self.0, align);
        }
        self.0 & (align - 1) == 0
    }

    /// Returns the address rounded down to align as specified.
    ///
    /// `align` must be a power of two.
    pub fn align_down(self, align: usize) -> (r: Self)
        requires
            is_power_of_two(align as nat),
        ensures
            r@ == self@ - self@ % align,
    {
        proof {
            lemma_usize_mask_is_mod(self.0, align);
            let x = self.0;
            let m = (align - 1) as usize;
            assert(x & !m == x - (x & m)) by (bit_vector);
        }
        Self(self.0 & !(align - 1))
    }

    /// Returns the address rounded up to align as specified.
    ///
    /// `align` must be a power of two, and rounding up must not pass the
    /// end of the address space.
    pub fn align_up(self, align: usize) -> (r: Self)
        requires
            is_power_of_two(align as nat),
            self@ + align - 1 <= usize::MAX,
        ensures
            r@ == round_up(self@ as nat, align as nat),
    {
        proof {
            lemma_usize_mask_is_mod(self.0, align);
        }
        let sum = self.0 + (align - 1);
        proof {
            lemma_usize_mask_is_mod(sum, align);
            let m = (align - 1) as usize;
            assert(sum & !m == sum - (sum & m)) by (bit_vector);
            vstd::arithmetic::div_mod::lemma_fundamental_div_mod(sum as int, align as int);
            assert(sum - sum % align == (sum / align) * align) by (nonlinear_arith)
                requires
                    sum == align * (sum / align) + sum % align,
            ;
        }
        Self(sum & !(align - 1))
    }
}

impl From<usize> for VirtAddr {
    fn from(value: usize) -> (r: Self) {
        Self::new(value)
    }
}

impl vstd::std_specs::convert::FromSpecImpl<usize> for VirtAddr {
    open spec fn obeys_from_spec() -> bool {
        true
    }

    closed spec fn from_spec(v: usize) -> Self {
        VirtAddr(v)
    }
}

impl From<VirtAddr> for usize {
    fn from(value: VirtAddr) -> (r: Self) {
        value.as_usize()
    }
}

impl vstd::std_specs::convert::FromSpecImpl<VirtAddr> for usize {
    open spec fn obeys_from_spec() -> bool {
        true
    }

    open spec fn from_spec(v: VirtAddr) -> Self {
        v@
    }
}

/// Two virtual addresses are equal exactly when the numbers they hold
/// are, and one is below the other exactly when its number is.
pub proof fn law_virt_addr_order(v: VirtAddr, w: VirtAddr)
    ensures
        v == w <==> v@ == w@,
        v.is_lt(&w) <==> v@ < w@,
        v.is_le(&w) <==> v@ <= w@,
        v.is_gt(&w) <==> v@ > w@,
        v.is_ge(&w) <==> v@ >= w@,
{
}

/// Converting an address to a `VirtAddr` gives the `VirtAddr` of that
/// address; converting it back gives the address, and converting a
/// `VirtAddr` to its address and back gives the `VirtAddr`.
pub proof fn law_virt_addr_round_trip(addr: usize, v: VirtAddr)
    ensures
        (<VirtAddr as vstd::std_specs::convert::FromSpec<usize>>::from_spec(addr))@ == addr,
        <usize as vstd::std_specs::convert::FromSpec<VirtAddr>>::from_spec(
            <VirtAddr as vstd::std_specs::convert::FromSpec<usize>>::from_spec(addr),
        ) == addr,
        <VirtAddr as vstd::std_specs::convert::FromSpec<usize>>::from_spec(
            <usize as vstd::std_specs::convert::FromSpec<VirtAddr>>::from_spec(v),
        ) == v,
{
}

/// Provides a size of a page.
pub trait PageSize: Clone + Copy + Send + Sync {
    /// A size of a page. It must be a power of two.
    const SIZE: usize;

    /// The size of a page is a power of two. A size type may state its
    /// size here as well.
    proof fn lemma_size()
        ensures
            is_power_of_two(Self::SIZE as nat),
    ;
}

/// Represents a page.
#[derive(Debug, PartialEq, Eq, Hash, PartialOrd, Ord)]
pub struct Page<S> {
    addr: VirtAddr,
    _size: PhantomData<S>,
}

impl<S> Clone for Page<S> {
    fn clone(&self) -> (r: Self)
        ensures
            r == *self,
    {
        Page { addr: self.addr, _size: PhantomData }
    }
}

impl<S> Copy for Page<S> {

}

impl<S> View for Page<S> {
    type V = usize;

    /// The start address of the page.
    closed spec fn view(&self) -> usize {
        self.addr@
    }
}

impl<S: PageSize> Page<S> {
    /// Whether the page starts at a multiple of its size, a power of two.
    pub closed spec fn wf(self) -> bool {
        &&& is_power_of_two(S::SIZE as nat)
        &&& self.addr@ % S::SIZE == 0
    }

    /// Creates a new page.
    ///
    /// `addr` must be properly aligned to `S::SIZE`, a power of two.
    pub fn new(addr: VirtAddr) -> (r: Self)
        requires
            addr@ % S::SIZE == 0,
        ensures
            r@ == addr@,
            r.wf(),
    {
        proof {
            S::lemma_size();
        }
        Self { addr, _size: PhantomData }
    }

    /// Returns the address of the page.
    pub fn start(self) -> (r: VirtAddr)
        ensures
            r@ == self@,
    {
        self.addr
    }

    /// Returns the size of the page, which is equal to `<S as PageSize>::SIZE`.
    pub fn size(self) -> (r: usize)
        ensures
            r == S::SIZE,
    {
        S::SIZE
    }

    /// A well-formed page starts at a multiple of its size, a power of two.
    pub proof fn lemma_aligned(self)
        requires
            self.wf(),
        ensures
            is_power_of_two(S::SIZE as nat),
            S::SIZE > 0,
            self@ % S::SIZE == 0,
    {
        vstd::arithmetic::power2::lemma_pow2_pos(choose|k: nat| pow2(k) == S::SIZE as nat);
    }
}

/// Represents a page frame that is mapped a page into.
#[derive(Debug, PartialEq, Eq, Hash, PartialOrd, Ord)]
pub struct PageFrame<S> {
    addr: PhysAddr,
    _size: PhantomData<S>,
}

impl<S> Clone for PageFrame<S> {
    fn clone(&self) -> (r: Self)
        ensures
            r == *self,
    {
        PageFrame { addr: self.addr, _size: PhantomData }
    }
}

impl<S> Copy for PageFrame<S> {

}

impl<S> View for PageFrame<S> {
    type V = u64;

    /// The physical address of the page frame.
    closed spec fn view(&self) -> u64 {
        self.addr@
    }
}

impl<S: PageSize> PageFrame<S> {
    /// Whether the frame starts at a multiple of its size, a power of two.
    pub closed spec fn wf(self) -> bool {
        &&& is_power_of_two(S::SIZE as nat)
        &&& (self.addr@ as nat) % (S::SIZE as nat) == 0
    }

    /// A well-formed frame starts at a multiple of its size, a power of two.
    pub proof fn lemma_aligned(self)
        requires
            self.wf(),
        ensures
            is_power_of_two(S::SIZE as nat),
            S::SIZE > 0,
            (self@ as nat) % (S::SIZE as nat) == 0,
    {
        vstd::arithmetic::power2::lemma_pow2_pos(choose|k: nat| pow2(k) == S::SIZE as nat);
    }

    /// Creates a new page frame.
    ///
    /// `addr` must be properly aligned to `S::SIZE`, a power of two.
    pub fn new(addr: PhysAddr) -> (r: Self)
        requires
            (addr@ as nat) % (S::SIZE as nat) == 0,
        ensures
            r@ == addr@,
            r.wf(),
    {
        proof {
            S::lemma_size();
        }
        Self { addr, _size: PhantomData }
    }

    /// Returns the address of the page frame.
    pub fn addr(self) -> (r: PhysAddr)
        ensures
            r@ == self@,
    {
        self.addr
    }

    /// Returns the size of the page frame, which is equal to `<S as PageSize>::SIZE`.
    pub fn size(self) -> (r: usize)
        ensures
            r == S::SIZE,
    {
        S::SIZE
    }
}

} // verus!
