use ic_stable_structures::Memory;
use vstd::prelude::*;

verus! {

/// Size in bytes of one page of the backing linear memory (a WebAssembly page).
pub const PAGE_SIZE: u64 = 65536;

/// The bytes currently held by a backing memory region.
pub uninterp spec fn region_bytes(m: MemRegion) -> Seq<u8>;

/// A growable linear memory region, the raw storage collaborator.
///
/// The region is provided by `ic_stable_structures` and is opaque to the
/// verifier; it is observed only through `region_bytes` and the trusted
/// wrappers below. It grows in whole pages, zero-filled, and never shrinks.
#[verifier::external_body]
pub struct MemRegion {
    mem: ic_stable_structures::DefaultMemoryImpl,
}

impl MemRegion {
    /// Relies on `DefaultMemoryImpl::default`: a vector-backed region on this
    /// target, created empty (zero pages).
    #[verifier::external_body]
    pub fn new() -> (r: MemRegion)
        ensures
            region_bytes(r) == Seq::<u8>::empty(),
    {
        MemRegion { mem: ic_stable_structures::DefaultMemoryImpl::default() }
    }

    /// Relies on `Memory::size`: the current size of the memory in 64 KiB
    /// pages, so `pages * PAGE_SIZE` bytes are addressable. Offsets into the
    /// region are 64-bit byte addresses, so the page count stays below 2^48.
    #[verifier::external_body]
    pub fn size_pages(&self) -> (r: u64)
        ensures
            r as int == region_bytes(*self).len() as int / (PAGE_SIZE as int),
            r < 0x1_0000_0000_0000,
    {
        self.mem.size()
    }

    /// Relies on `Memory::grow`: adds `pages` zero-filled pages and returns
    /// the previous size in pages, or returns -1 and leaves the region
    /// unchanged when the memory cannot be grown.
    #[verifier::external_body]
    pub fn grow(&mut self, pages: u64) -> (r: i64)
        ensures
            r < 0 ==> region_bytes(*final(self)) == region_bytes(*old(self)),
            r >= 0 ==> r as int == region_bytes(*old(self)).len() as int / (PAGE_SIZE as int),
            (r >= 0 && region_bytes(*old(self)).len() as int % (PAGE_SIZE as int) == 0)
                ==> region_bytes(*final(self)) == region_bytes(*old(self)) + Seq::new(
                    (pages as int * PAGE_SIZE as int) as nat,
                    |i: int| 0u8,
                ),
    {
        self.mem.grow(pages)
    }

    /// Relies on `Memory::read`: copies `buf.len()` bytes out of the region,
    /// starting at `offset`. The caller must stay in bounds, as an
    /// out-of-bounds read traps.
    #[verifier::external_body]
    pub fn read(&self, offset: u64, buf: &mut Vec<u8>)
        requires
            offset as int + old(buf)@.len() as int <= region_bytes(*self).len(),
        ensures
            final(buf)@ == region_bytes(*self).subrange(
                offset as int,
                offset as int + old(buf)@.len() as int,
            ),
    {
        self.mem.read(offset, buf.as_mut_slice())
    }

    /// Relies on `Memory::write`: copies `buf` into the region at `offset`.
    /// The caller must stay in bounds, as an out-of-bounds write traps.
    #[verifier::external_body]
    pub fn write(&mut self, offset: u64, buf: &[u8])
        requires
            offset as int + buf@.len() as int <= region_bytes(*old(self)).len(),
        ensures
            region_bytes(*final(self)).len() == region_bytes(*old(self)).len(),
            forall|i: int|
                0 <= i < region_bytes(*old(self)).len() ==> region_bytes(*final(self))[i] == (
                if offset as int <= i < offset as int + buf@.len() {
                    buf@[i - offset as int]
                } else {
                    region_bytes(*old(self))[i]
                }),
    {
        self.mem.write(offset, buf)
    }
}

} // verus!
