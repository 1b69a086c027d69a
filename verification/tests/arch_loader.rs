//! The page-table walk that maps a page, and the layout of the memory-map
//! listing.

use miker::arch::{MapError, MapWalk, PageSize1GB, PageSize2MB, PageSize4KB};
use miker::loader::{region_end, MemmapLayout};
use miker::mem::{Page, PageFrame, PageSize, PhysAddr, VirtAddr};

fn walk_indices<S: PageSize>(frame_addr: u64) -> Vec<(usize, bool)> {
    let mut walk = MapWalk::new(PageFrame::<S>::new(PhysAddr::new(frame_addr)));
    let mut steps = Vec::new();
    loop {
        let step = walk.next_entry();
        steps.push(step);
        if step.1 {
            return steps;
        }
    }
}

#[test]
fn walk_for_small_pages_reads_four_levels() {
    // Indices 1, 2, 3, 4 from the top level down.
    let addr = (1u64 << 39) | (2 << 30) | (3 << 21) | (4 << 12);
    assert_eq!(
        walk_indices::<PageSize4KB>(addr),
        vec![(1, false), (2, false), (3, false), (4, true)]
    );
}

#[test]
fn walk_for_large_pages_stops_early() {
    let addr = (5u64 << 39) | (6 << 30) | (7 << 21);
    assert_eq!(walk_indices::<PageSize2MB>(addr), vec![(5, false), (6, false), (7, true)]);
    let addr = (511u64 << 39) | (510 << 30);
    assert_eq!(walk_indices::<PageSize1GB>(addr), vec![(511, false), (510, true)]);
}

#[test]
fn next_table_clears_the_flags() {
    assert_eq!(MapWalk::next_table(0x1234_5678_9abc_def1).as_u64(), 0x1234_5678_9abc_d000);
    assert_eq!(MapWalk::next_table(0x5003).as_u64(), 0x5000);
    assert_eq!(MapWalk::next_table(0).as_u64(), 0);
}

#[test]
fn leaf_refuses_a_present_entry() {
    let page = Page::<PageSize4KB>::new(VirtAddr::new(0x7000));
    assert_eq!(MapWalk::leaf_value(0x9001, page), Err(MapError::AlreadyMapped));
    assert_eq!(MapWalk::leaf_value(1, page), Err(MapError::AlreadyMapped));
}

#[test]
fn leaf_writes_the_page_and_present_bit() {
    let page = Page::<PageSize4KB>::new(VirtAddr::new(0x7000));
    assert_eq!(MapWalk::leaf_value(0, page), Ok(0x7001));
    assert_eq!(MapWalk::leaf_value(0x9000, page), Ok(0x7001));
    let big = Page::<PageSize2MB>::new(VirtAddr::new(0x60_0000));
    assert_eq!(MapWalk::leaf_value(0, big), Ok(0x60_0001));
    let written = MapWalk::leaf_value(0, page).unwrap();
    assert_eq!(MapWalk::next_table(written).as_u64(), 0x7000);
}

#[test]
fn layout_of_a_screen() {
    let layout = MemmapLayout::new(1024, 768);
    assert_eq!(layout.row_num, 48);
    assert_eq!(layout.item_per_row, 2);
    assert_eq!(layout.item_count(), 96);
    assert_eq!(layout.item_position(0), (0, 0));
    assert_eq!(layout.item_position(1), (0, 16));
    assert_eq!(layout.item_position(47), (0, 752));
    assert_eq!(layout.item_position(48), (480, 0));
    assert_eq!(layout.item_position(95), (480, 752));
}

#[test]
fn narrow_screen_shows_nothing() {
    let layout = MemmapLayout::new(400, 768);
    assert_eq!(layout.item_per_row, 0);
    assert_eq!(layout.item_count(), 0);
}

#[test]
fn items_stay_on_screen_and_apart() {
    let (w, h) = (1920usize, 1080usize);
    let layout = MemmapLayout::new(w, h);
    let mut seen = std::collections::HashSet::new();
    for count in 0..layout.item_count() {
        let (x, y) = layout.item_position(count);
        assert!(x + 480 <= w && y + 16 <= h);
        assert!(seen.insert((x, y)));
    }
}

#[test]
fn region_end_counts_pages() {
    assert_eq!(region_end(0x1000, 3), 0x4000);
    assert_eq!(region_end(0, 0), 0);
}
