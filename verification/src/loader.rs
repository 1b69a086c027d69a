//! The layout of the memory-map listing that the loader draws on the
//! screen: one line of text per memory descriptor, laid out in columns of
//! character cells of 8 by 16 pixels, filling each column top to bottom
//! before the next one.

use vstd::prelude::*;

verus! {

/// The width of a character cell, in pixels.
pub const CHAR_WIDTH: usize = 8;

/// The height of a character cell, in pixels.
pub const CHAR_HEIGHT: usize = 16;

/// The number of characters that one memory descriptor takes on screen.
pub const ITEM_LEN: usize = 60;

/// The bytes of one memory page, as memory descriptors count them.
pub const MEMORY_PAGE_SIZE: u64 = 4096;

/// How the listing is laid out on a screen: the number of descriptors in
/// a column, and the number of columns.
#[derive(Debug, Clone, Copy, PartialEq, Eq, Structural)]
pub struct MemmapLayout {
    /// The number of descriptors in one column (lines of text on screen).
    pub row_num: usize,
    /// The number of columns of descriptors.
    pub item_per_row: usize,
}

/// The horizontal pixel position of descriptor `count` in a layout with
/// `row_num` descriptors a column.
pub open spec fn item_x(row_num: nat, count: nat) -> nat {
    (count / row_num) * ITEM_LEN as nat * CHAR_WIDTH as nat
}

/// The vertical pixel position of descriptor `count` in a layout with
/// `row_num` descriptors a column.
pub open spec fn item_y(row_num: nat, count: nat) -> nat {
    (count % row_num) * CHAR_HEIGHT as nat
}

/// The end address of a memory region of `page_count` pages from
/// `phys_start`.
pub open spec fn region_end_spec(phys_start: nat, page_count: nat) -> nat {
    phys_start + page_count * MEMORY_PAGE_SIZE as nat
}

impl MemmapLayout {
    /// Whether the layout fits on a screen whose pixel coordinates are
    /// `usize`: every column and every line starts at a representable
    /// position.
    pub open spec fn wf(self) -> bool {
        &&& self.item_per_row * ITEM_LEN * CHAR_WIDTH <= usize::MAX
        &&& self.row_num * CHAR_HEIGHT <= usize::MAX
    }

    /// The layout of the listing on a screen of `width` by `height` pixels.
    pub fn new(width: usize, height: usize) -> (r: Self)
        ensures
            r.row_num == height / CHAR_HEIGHT,
            r.item_per_row == width / CHAR_WIDTH / ITEM_LEN,
            r.row_num == height / 16,
            r.item_per_row == width / 480,
            r.wf(),
            r.item_per_row * ITEM_LEN * CHAR_WIDTH <= width,
            r.row_num * CHAR_HEIGHT <= height,
    {
        let col_num = width / CHAR_WIDTH;
        let row_num = height / CHAR_HEIGHT;
        let item_per_row = col_num / ITEM_LEN;
        proof {
            assert(item_per_row * 60 * 8 <= width) by (nonlinear_arith)
                requires
                    col_num == width / 8,
                    item_per_row == col_num / 60,
            ;
            assert(row_num * 16 <= height) by (nonlinear_arith)
                requires
                    row_num == height / 16,
            ;
        }
        MemmapLayout { row_num, item_per_row }
    }

    /// The number of descriptors that fit on the screen.
    pub open spec fn capacity(self) -> nat {
        (self.row_num * self.item_per_row) as nat
    }

    /// Returns the number of descriptors that fit on the screen.
    pub fn item_count(self) -> (r: usize)
        requires
            self.capacity() <= usize::MAX,
        ensures
            r == self.capacity(),
            r == self.row_num * self.item_per_row,
    {
        self.row_num * self.item_per_row
    }

    /// Returns the pixel position at which descriptor `count` is drawn.
    pub fn item_position(self, count: usize) -> (r: (usize, usize))
        requires
            self.wf(),
            count < self.capacity(),
        ensures
            r.0 == item_x(self.row_num as nat, count as nat),
            r.1 == item_y(self.row_num as nat, count as nat),
            r.0 == (count / self.row_num) * 480,
            r.1 == (count % self.row_num) * 16,
    {
        let row_num = self.row_num;
        let item_per_row = self.item_per_row;
        proof {
            assert(row_num > 0 && item_per_row > 0 && count / row_num < item_per_row) by (nonlinear_arith)
                requires
                    count < row_num * item_per_row,
            ;
            assert((count / row_num) * 60 * 8 <= item_per_row * 480) by (nonlinear_arith)
                requires
                    count / row_num < item_per_row,
            ;
            assert((count % row_num) * 16 <= row_num * 16) by (nonlinear_arith)
                requires
                    row_num > 0,
            ;
        }
        let col = count / row_num;
        let row = count % row_num;
        (col * ITEM_LEN * CHAR_WIDTH, row * CHAR_HEIGHT)
    }
}

/// Returns the end address of the memory region of `page_count` pages that
/// starts at `phys_start`.
pub fn region_end(phys_start: u64, page_count: u64) -> (r: u64)
    requires
        region_end_spec(phys_start as nat, page_count as nat) <= u64::MAX,
    ensures
        r == region_end_spec(phys_start as nat, page_count as nat),
        r == phys_start + page_count * 4096,
{
    phys_start + page_count * MEMORY_PAGE_SIZE
}

/// Every descriptor that the listing shows on a screen of `width` by
/// `height` pixels is drawn wholly on the screen.
pub proof fn law_items_on_screen(width: nat, height: nat, count: nat)
    requires
        count < (height / 16) * (width / 8 / 60),
    ensures
        item_x(height / 16, count) + ITEM_LEN * CHAR_WIDTH <= width,
        item_y(height / 16, count) + CHAR_HEIGHT <= height,
{
    let row_num = height / 16;
    let item_per_row = width / 8 / 60;
    assert(row_num > 0 && count / row_num < item_per_row) by (nonlinear_arith)
        requires
            count < row_num * item_per_row,
    ;
    let col = count / row_num;
    let q = width / 8;
    assert(q * 8 <= width) by (nonlinear_arith)
        requires
            q == width / 8,
    ;
    assert(item_per_row * 60 <= q) by (nonlinear_arith)
        requires
            item_per_row == q / 60,
    ;
    assert((col + 1) * 480 <= item_per_row * 480) by (nonlinear_arith)
        requires
            col < item_per_row,
    ;
    assert((count % row_num) * 16 + 16 <= height) by (nonlinear_arith)
        requires
            row_num == height / 16,
            row_num > 0,
    ;
}

/// Two different descriptors are drawn at different positions, so their
/// lines never overlap.
pub proof fn law_items_apart(row_num: nat, c1: nat, c2: nat)
    requires
        row_num > 0,
        c1 != c2,
    ensures
        item_x(row_num, c1) != item_x(row_num, c2) || item_y(row_num, c1) != item_y(row_num, c2),
{
    if item_x(row_num, c1) == item_x(row_num, c2) && item_y(row_num, c1) == item_y(row_num, c2) {
        let a1 = c1 / row_num;
        let a2 = c2 / row_num;
        let b1 = c1 % row_num;
        let b2 = c2 % row_num;
        assert(a1 * 60 * 8 == a2 * 60 * 8);
        assert(b1 * 16 == b2 * 16);
        assert(a1 == a2 && b1 == b2);
        vstd::arithmetic::div_mod::lemma_fundamental_div_mod(c1 as int, row_num as int);
        vstd::arithmetic::div_mod::lemma_fundamental_div_mod(c2 as int, row_num as int);
    }
}

/// The listing shows as many descriptors as there are lines in a column
/// times columns: the capacity of a layout is the product of its lines per
/// column and its columns, and on a screen of `width` by `height` pixels it
/// is `height / 16` lines times `width / 480` columns.
pub proof fn law_capacity(layout: MemmapLayout, width: usize, height: usize)
    ensures
        layout.capacity() == layout.row_num * layout.item_per_row,
        layout.row_num == height / 16 && layout.item_per_row == width / 8 / 60
            ==> layout.capacity() == (height / 16) * (width / 8 / 60),
{
    assert(layout.row_num * layout.item_per_row >= 0) by (nonlinear_arith);
}

/// The end of a memory region lies `page_count * 4096` bytes past its start:
/// the whole start address counts, however large.
pub proof fn law_region_end(phys_start: nat, page_count: nat)
    ensures
        region_end_spec(phys_start, page_count) == phys_start + page_count * 4096,
        region_end_spec(phys_start, page_count) - phys_start == page_count * 4096,
        region_end_spec(phys_start, page_count) >= phys_start,
        region_end_spec(phys_start, 0) == phys_start,
        region_end_spec(phys_start, page_count + 1) == region_end_spec(phys_start, page_count) + 4096,
{
}

/// Descriptor `count` is drawn in column `count / row_num`, each 480 pixels
/// wide, and on line `count % row_num`, each 16 pixels high: consecutive
/// descriptors go down a column, and the next column starts at the top.
pub proof fn law_item_placement(row_num: nat, count: nat)
    requires
        row_num > 0,
    ensures
        item_x(row_num, count) == (count / row_num) * 480,
        item_y(row_num, count) == (count % row_num) * 16,
        item_x(row_num, count) % 480 == 0,
        item_y(row_num, count) < row_num * 16,
{
    let c = count / row_num;
    let r = count % row_num;
    assert(r < row_num) by (nonlinear_arith)
        requires
            r == count % row_num,
            row_num > 0,
    ;
    assert((c * 480) % 480 == 0) by (nonlinear_arith);
    assert(r * 16 < row_num * 16) by (nonlinear_arith)
        requires
            r < row_num,
    ;
    assert(item_x(row_num, count) == c * 480);
    assert(item_y(row_num, count) == r * 16);
}

} // verus!
