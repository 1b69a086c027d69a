//! Addresses, pages, page frames and page attributes.

use miker::arch::{PageSize1GB, PageSize2MB, PageSize4KB};
use miker::mem::{Page, PageFrame, PageSize, PhysAddr, VirtAddr};
use miker::paging::{AccessRight, CachePolicy, MappingScope, PageAttributes};

#[test]
fn phys_addr_round_trip() {
    let a = PhysAddr::new(0x1234_5000);
    assert_eq!(a.as_u64(), 0x1234_5000);
    assert_eq!(PhysAddr::from(7u64), PhysAddr::new(7));
    assert_eq!(u64::from(PhysAddr::new(9)), 9);
}

#[test]
fn phys_addr_alignment() {
    let a = PhysAddr::new(0x20_3000);
    assert!(a.is_aligned(1));
    assert!(a.is_aligned(0x1000));
    assert!(!a.is_aligned(0x2000));
    assert!(!a.is_aligned(0x20_0000));
    assert!(PhysAddr::new(0).is_aligned(1 << 63));
}

#[test]
fn virt_addr_round_trip() {
    let a = VirtAddr::new(0xdead_b000);
    assert_eq!(a.as_usize(), 0xdead_b000);
    assert_eq!(VirtAddr::from(3usize), VirtAddr::new(3));
    assert_eq!(usize::from(VirtAddr::new(11)), 11);
}

#[test]
fn virt_addr_alignment() {
    let a = VirtAddr::new(0x1234);
    assert!(!a.is_aligned(0x1000));
    assert!(a.is_aligned(4));
    assert!(!a.is_aligned(8));
    assert_eq!(a.align_down(0x1000).as_usize(), 0x1000);
    assert_eq!(a.align_up(0x1000).as_usize(), 0x2000);
    assert_eq!(VirtAddr::new(0x2000).align_up(0x1000).as_usize(), 0x2000);
    assert_eq!(VirtAddr::new(0x2000).align_down(0x1000).as_usize(), 0x2000);
    assert_eq!(a.align_down(1).as_usize(), 0x1234);
    assert_eq!(a.align_up(1).as_usize(), 0x1234);
    assert_eq!(VirtAddr::new(0).align_up(0x20_0000).as_usize(), 0);
    assert_eq!(VirtAddr::new(1).align_up(0x20_0000).as_usize(), 0x20_0000);
}

#[test]
fn aligned_after_rounding() {
    for addr in [0usize, 1, 0xfff, 0x1000, 0x1001, 0x12_3456] {
        let v = VirtAddr::new(addr);
        let down = v.align_down(0x1000);
        let up = v.align_up(0x1000);
        assert!(down.is_aligned(0x1000));
        assert!(up.is_aligned(0x1000));
        assert!(down.as_usize() <= addr && addr < down.as_usize() + 0x1000);
        assert!(addr <= up.as_usize() && up.as_usize() < addr + 0x1000);
    }
}

#[test]
fn page_sizes() {
    assert_eq!(PageSize4KB::SIZE, 4096);
    assert_eq!(PageSize2MB::SIZE, 2 * 1024 * 1024);
    assert_eq!(PageSize1GB::SIZE, 1024 * 1024 * 1024);
}

#[test]
fn pages_and_frames() {
    let page = Page::<PageSize2MB>::new(VirtAddr::new(0x40_0000));
    assert_eq!(page.start(), VirtAddr::new(0x40_0000));
    assert_eq!(page.size(), 0x20_0000);
    let copy = page;
    assert_eq!(copy.start(), page.start());
    let frame = PageFrame::<PageSize4KB>::new(PhysAddr::new(0x7000));
    assert_eq!(frame.addr(), PhysAddr::new(0x7000));
    assert_eq!(frame.size(), 0x1000);
    let big = PageFrame::<PageSize1GB>::new(PhysAddr::new(0x8000_0000));
    assert_eq!(big.addr().as_u64(), 0x8000_0000);
    assert_eq!(big.size(), 0x4000_0000);
}

#[test]
fn page_attributes() {
    let data = PageAttributes::kernel_data();
    assert_eq!(data.right, AccessRight::ReadWrite);
    assert_eq!(data.scope, MappingScope::GlobalKernel);
    assert_eq!(data.cache, CachePolicy::Normal);
    let code = PageAttributes::kernel_code();
    assert_eq!(code.right, AccessRight::ReadExecute);
    assert_eq!(code.scope, MappingScope::GlobalKernel);
    assert_eq!(code.cache, CachePolicy::Normal);
}

#[test]
fn attribute_defaults() {
    assert_eq!(AccessRight::default(), AccessRight::NoAccess);
    assert_eq!(MappingScope::default(), MappingScope::User);
    assert_eq!(CachePolicy::default(), CachePolicy::Normal);
}

#[test]
fn addresses_order_as_numbers() {
    assert!(PhysAddr::new(1) < PhysAddr::new(2));
    assert!(PhysAddr::new(0x2000) > PhysAddr::new(0x1fff));
    assert!(PhysAddr::new(5) <= PhysAddr::new(5));
    assert_eq!(PhysAddr::new(3).partial_cmp(&PhysAddr::new(3)), Some(std::cmp::Ordering::Equal));
    assert!(VirtAddr::new(7) < VirtAddr::new(8));
    assert!(VirtAddr::new(9) >= VirtAddr::new(8));
    assert_eq!(PhysAddr::new(1).max(PhysAddr::new(4)), PhysAddr::new(4));
}
