# miker

Verified building blocks of the MIKer kernel.

- `src/bitops`: single bits and ranges of bits of `u8`, `u16`, `u32`, `u64`,
  `u128` and `usize` (`bits_u8` … `bits_usize`, and the `BitOps` trait),
  with their contracts stated over the binary digits of numbers (`model`),
  ranges of bit positions, from the std range types and pairs of bounds
  (`range`), and the laws across calls (`laws`).
- `src/mem.rs`: physical and virtual addresses, alignment, pages and page
  frames.
- `src/paging.rs`: page attributes.
- `src/arch.rs`: x86-64 page sizes and the decisions of the page-table walk
  that maps a page.
- `src/loader.rs`: where the loader's memory-map listing places each line.
- `app/`: what reaches memory or firmware data: pointers from addresses,
  the page mapper that runs the walk over the tables in memory, and the
  memory-map listing over UEFI's memory map.
