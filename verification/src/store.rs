use crate::error::VfsError;
use crate::memory::{region_bytes, MemRegion, PAGE_SIZE};
use vstd::arithmetic::div_mod::{
    lemma_fundamental_div_mod, lemma_mod_division_less_than_divisor, lemma_mod_multiples_vanish,
};
use vstd::prelude::*;

verus! {

/// Number of whole pages needed to hold `n` bytes.
pub open spec fn pages_for(n: int) -> int {
    if n % (PAGE_SIZE as int) == 0 {
        n / (PAGE_SIZE as int)
    } else {
        n / (PAGE_SIZE as int) + 1
    }
}

/// `n` rounded up to page granularity.
pub open spec fn round_up_to_page(n: int) -> int {
    pages_for(n) * (PAGE_SIZE as int)
}

/// The store's bytes after it has grown to cover at least `target` bytes:
/// unchanged if already large enough, otherwise extended with zeros up to
/// `target` rounded up to page granularity.
pub open spec fn grown(bytes: Seq<u8>, target: int) -> Seq<u8> {
    if target <= bytes.len() {
        bytes
    } else {
        bytes + Seq::new((round_up_to_page(target) - bytes.len()) as nat, |i: int| 0u8)
    }
}

/// The store's bytes after `data` has been copied in at `offset`.
pub open spec fn written(bytes: Seq<u8>, offset: int, data: Seq<u8>) -> Seq<u8>
    recommends
        0 <= offset,
        offset + data.len() <= bytes.len(),
{
    Seq::new(
        bytes.len(),
        |i: int|
            if offset <= i < offset + data.len() {
                data[i - offset]
            } else {
                bytes[i]
            },
    )
}

/// The store's bytes after logical deletion: the 16-byte existence sentinel
/// at offset 0 is zeroed, capacity is kept.
pub open spec fn deleted(bytes: Seq<u8>) -> Seq<u8> {
    Seq::new(bytes.len(), |i: int| if i < 16 { 0u8 } else { bytes[i] })
}

/// Whether the store holds an existing logical file: it has capacity and at
/// least one of the first 16 bytes is non-zero.
pub open spec fn exists_spec(bytes: Seq<u8>) -> bool {
    bytes.len() > 0 && exists|i: int| 0 <= i < 16 && i < bytes.len() && bytes[i] != 0
}

/// A growable, byte-addressable store for one logical database file,
/// layered over a linear memory region that grows in whole pages.
pub struct PagedStore {
    mem: MemRegion,
}

impl PagedStore {
    /// The bytes currently held by the store.
    pub closed spec fn bytes(self) -> Seq<u8> {
        region_bytes(self.mem)
    }

    /// Well-formedness: the store's size is a whole number of pages.
    pub closed spec fn wf(self) -> bool {
        self.bytes().len() as int % (PAGE_SIZE as int) == 0
    }

    /// Wraps a memory region whose size is a whole number of pages.
    pub fn new(memory: MemRegion) -> (r: PagedStore)
        requires
            region_bytes(memory).len() as int % (PAGE_SIZE as int) == 0,
        ensures
            r.wf(),
            r.bytes() == region_bytes(memory),
    {
        PagedStore { mem: memory }
    }

    /// Current capacity in bytes: pages times the page size.
    pub fn capacity(&self) -> (r: u64)
        requires
            self.wf(),
        ensures
            r as int == self.bytes().len(),
    {
        let pages = self.mem.size_pages();
        proof {
            lemma_fundamental_div_mod(self.bytes().len() as int, PAGE_SIZE as int);
        }
        pages * PAGE_SIZE
    }

    /// Grows the store to cover at least `target` bytes, rounding up to page
    /// granularity; never shrinks; a no-op if already large enough. An
    /// `OutOfSpace` error means the memory provider refused to grow and the
    /// store is unchanged.
    pub fn resize(&mut self, target: u64) -> (r: Result<(), VfsError>)
        requires
            old(self).wf(),
        ensures
            final(self).wf(),
            target as int <= old(self).bytes().len() ==> r is Ok,
            (match r {
                Ok(()) => final(self).bytes() == grown(old(self).bytes(), target as int),
                Err(e) => e == VfsError::OutOfSpace && final(self).bytes() == old(self).bytes(),
            }),
    {
        let cap = self.capacity();
        if target <= cap {
            return Ok(());
        }
        let pages_now = self.mem.size_pages();
        let q = target / PAGE_SIZE;
        let rem = target % PAGE_SIZE;
        let ghost old_len: int = old(self).bytes().len() as int;
        proof {
            lemma_fundamental_div_mod(target as int, PAGE_SIZE as int);
            lemma_mod_division_less_than_divisor(target as int, PAGE_SIZE as int);
            lemma_fundamental_div_mod(old_len, PAGE_SIZE as int);
            assert(q < 0x1_0000_0000_0000) by (nonlinear_arith)
                requires
                    target as int == (PAGE_SIZE as int) * (q as int) + rem as int,
                    0 <= rem as int,
                    target <= u64::MAX,
                    PAGE_SIZE == 65536,
            ;
        }
        let pages_req = if rem != 0 {
            q + 1
        } else {
            q
        };
        proof {
            assert(pages_req as int == pages_for(target as int));
            assert((pages_now as int) < pages_req as int) by (nonlinear_arith)
                requires
                    old_len == (PAGE_SIZE as int) * (pages_now as int),
                    target as int == (PAGE_SIZE as int) * (q as int) + rem as int,
                    0 <= (rem as int) < (PAGE_SIZE as int),
                    target as int > old_len,
                    (rem == 0 ==> pages_req as int == q as int),
                    (rem != 0 ==> pages_req as int == q as int + 1),
                    PAGE_SIZE == 65536,
            ;
        }
        let add = pages_req - pages_now;
        let res = self.mem.grow(add);
        if res < 0 {
            return Err(VfsError::OutOfSpace);
        }
        proof {
            let p = PAGE_SIZE as int;
            let old_len = old(self).bytes().len() as int;
            assert(add as int * p == round_up_to_page(target as int) - old_len);
            assert(self.bytes() =~= grown(old(self).bytes(), target as int));
            lemma_mod_multiples_vanish(add as int, old_len, p);
        }
        Ok(())
    }

    /// Reads `buf.len()` bytes at `offset` into `buf`. A store of zero
    /// capacity leaves `buf` untouched; otherwise the requested range must
    /// lie within capacity, and bytes never explicitly written read as zero
    /// because growth is zero-filled.
    pub fn read_at(&self, offset: u64, buf: &mut Vec<u8>)
        requires
            self.wf(),
            self.bytes().len() == 0 || offset as int + old(buf)@.len() as int
                <= self.bytes().len(),
        ensures
            final(buf)@.len() == old(buf)@.len(),
            self.bytes().len() == 0 ==> final(buf)@ == old(buf)@,
            self.bytes().len() > 0 ==> final(buf)@ == self.bytes().subrange(
                offset as int,
                offset as int + old(buf)@.len() as int,
            ),
    {
        let cap = self.capacity();
        if cap > 0 {
            self.mem.read(offset, buf);
        }
    }

    /// Writes `data` at `offset`, first growing the store, page by page, to
    /// cover `offset + data.len()` bytes. An `OutOfSpace` error means growth
    /// failed (or the range end does not fit in 64 bits, which no memory
    /// provider can cover) and the store is unchanged.
    pub fn write_at(&mut self, offset: u64, data: &[u8]) -> (r: Result<(), VfsError>)
        requires
            old(self).wf(),
        ensures
            final(self).wf(),
            offset as int + data@.len() as int <= old(self).bytes().len() ==> r is Ok,
            (match r {
                Ok(()) => final(self).bytes() == written(
                    grown(old(self).bytes(), offset as int + data@.len() as int),
                    offset as int,
                    data@,
                ),
                Err(e) => e == VfsError::OutOfSpace && final(self).bytes() == old(self).bytes(),
            }),
    {
        let cap = self.capacity();
        let len_u64: u64 = data.len() as u64;
        let target = match offset.checked_add(len_u64) {
            Some(t) => t,
            None => {
                return Err(VfsError::OutOfSpace);
            },
        };
        match self.resize(target) {
            Ok(()) => {},
            Err(e) => {
                return Err(e);
            },
        }
        proof {
            lemma_round_up_bounds(target as int);
        }
        self.mem.write(offset, data);
        proof {
            assert(self.bytes() =~= written(
                grown(old(self).bytes(), offset as int + data@.len() as int),
                offset as int,
                data@,
            ));
        }
        Ok(())
    }

    /// Logical deletion: zeroes the 16-byte existence sentinel at offset 0.
    /// Capacity is not reduced; a store with no capacity is left unchanged.
    pub fn delete(&mut self)
        requires
            old(self).wf(),
        ensures
            final(self).wf(),
            final(self).bytes() == deleted(old(self).bytes()),
    {
        let cap = self.capacity();
        if cap == 0 {
            proof {
                assert(self.bytes() =~= deleted(old(self).bytes()));
            }
            return;
        }
        proof {
            lemma_positive_page_multiple(old(self).bytes().len() as int);
        }
        let mut zeros: Vec<u8> = Vec::new();
        let mut i: usize = 0;
        while i < 16
            invariant
                i <= 16,
                zeros@.len() == i as int,
                forall|j: int| 0 <= j < i as int ==> zeros@[j] == 0u8,
            decreases 16 - i,
        {
            zeros.push(0u8);
            i = i + 1;
        }
        self.mem.write(0, zeros.as_slice());
        proof {
            assert(self.bytes() =~= deleted(old(self).bytes()));
        }
    }

    /// Whether the logical file exists: the store has capacity and at least
    /// one sentinel byte is non-zero.
    pub fn file_exists(&self) -> (r: bool)
        requires
            self.wf(),
        ensures
            r == exists_spec(self.bytes()),
    {
        let cap = self.capacity();
        if cap == 0 {
            return false;
        }
        proof {
            lemma_positive_page_multiple(self.bytes().len() as int);
        }
        let mut buf: Vec<u8> = Vec::new();
        let mut i: usize = 0;
        while i < 16
            invariant
                i <= 16,
                buf@.len() == i as int,
            decreases 16 - i,
        {
            buf.push(0u8);
            i = i + 1;
        }
        self.mem.read(0, &mut buf);
        let mut k: usize = 0;
        while k < 16
            invariant
                self.wf(),
                self.bytes().len() >= 16,
                buf@ == self.bytes().subrange(0, 16),
                k <= 16,
                forall|j: int| 0 <= j < k as int ==> self.bytes()[j] == 0,
            decreases 16 - k,
        {
            if buf[k] > 0 {
                proof {
                    assert(self.bytes()[k as int] != 0);
                }
                return true;
            }
            k = k + 1;
        }
        false
    }
}

/// Rounding a byte count up to page granularity reaches at least the count,
/// stays within one page of it, and lands on a page boundary.
pub proof fn lemma_round_up_bounds(n: int)
    requires
        0 <= n,
    ensures
        n <= round_up_to_page(n) < n + (PAGE_SIZE as int),
        round_up_to_page(n) % (PAGE_SIZE as int) == 0,
{
    let p = PAGE_SIZE as int;
    lemma_fundamental_div_mod(n, p);
    lemma_mod_division_less_than_divisor(n, p);
    assert(n <= round_up_to_page(n) < n + p) by (nonlinear_arith)
        requires
            n == p * (n / p) + n % p,
            0 <= n % p < p,
            round_up_to_page(n) == pages_for(n) * p,
            (n % p == 0 ==> pages_for(n) == n / p),
            (n % p != 0 ==> pages_for(n) == n / p + 1),
            p == 65536,
    ;
    assert(round_up_to_page(n) % p == 0) by (nonlinear_arith)
        requires
            round_up_to_page(n) == pages_for(n) * p,
            p == 65536,
    ;
}

/// A non-empty whole number of pages is at least one page.
pub proof fn lemma_positive_page_multiple(n: int)
    requires
        0 < n,
        n % (PAGE_SIZE as int) == 0,
    ensures
        n >= PAGE_SIZE as int,
{
    let p = PAGE_SIZE as int;
    lemma_fundamental_div_mod(n, p);
    assert(n >= p) by (nonlinear_arith)
        requires
            n == p * (n / p),
            0 < n,
            p == 65536,
    ;
}

/// Law: reading back exactly the range just written returns the written data.
pub proof fn lemma_write_read_round_trip(bytes: Seq<u8>, offset: int, data: Seq<u8>)
    requires
        0 <= offset,
        offset + data.len() <= bytes.len(),
    ensures
        written(bytes, offset, data).subrange(offset, offset + data.len() as int) == data,
{
    assert(written(bytes, offset, data).subrange(offset, offset + data.len() as int) =~= data);
}

/// Law: on any store, a write — growing the store as `write_at` does —
/// followed by a read of the same range returns exactly the bytes written.
pub proof fn lemma_write_then_read_back(bytes: Seq<u8>, offset: int, data: Seq<u8>)
    requires
        0 <= offset,
    ensures
        written(grown(bytes, offset + data.len()), offset, data).subrange(
            offset,
            offset + data.len() as int,
        ) == data,
{
    lemma_resize_bounds(bytes, offset + data.len());
    lemma_write_read_round_trip(grown(bytes, offset + data.len()), offset, data);
}

/// Law: every byte a growth step added, past the old end, is zero.
pub proof fn lemma_grown_zeros(bytes: Seq<u8>, target: int, i: int)
    requires
        bytes.len() <= i < grown(bytes, target).len(),
    ensures
        grown(bytes, target)[i] == 0,
{
}

/// Law: after a write that grew the store, every byte past the old capacity
/// and outside the freshly written range reads as zero.
pub proof fn lemma_beyond_data_is_zero(bytes: Seq<u8>, offset: int, data: Seq<u8>, i: int)
    requires
        0 <= offset,
        bytes.len() <= i < written(grown(bytes, offset + data.len()), offset, data).len(),
        !(offset <= i < offset + data.len()),
    ensures
        written(grown(bytes, offset + data.len()), offset, data)[i] == 0,
{
    lemma_grown_zeros(bytes, offset + data.len(), i);
}

/// Law: the logical file never reports existence right after deletion.
pub proof fn lemma_delete_clears_existence(bytes: Seq<u8>)
    ensures
        !exists_spec(deleted(bytes)),
{
}

/// Law: a write that puts a non-zero byte within the 16-byte sentinel makes
/// the logical file exist again.
pub proof fn lemma_write_sentinel_revives(bytes: Seq<u8>, offset: int, data: Seq<u8>, i: int)
    requires
        0 <= offset,
        offset + data.len() <= bytes.len(),
        offset <= i < offset + data.len(),
        0 <= i < 16,
        data[i - offset] != 0,
    ensures
        exists_spec(written(bytes, offset, data)),
{
    assert(written(bytes, offset, data)[i] != 0);
}

/// Law: a resize target is covered after rounding up to page granularity,
/// and a target at or below the current size changes nothing, so the store
/// never shrinks.
pub proof fn lemma_resize_bounds(bytes: Seq<u8>, target: int)
    requires
        0 <= target,
    ensures
        grown(bytes, target).len() >= target,
        grown(bytes, target).len() >= bytes.len(),
        target <= bytes.len() ==> grown(bytes, target) == bytes,
        target > bytes.len() ==> grown(bytes, target).len() == round_up_to_page(target),
        bytes.len() as int % (PAGE_SIZE as int) == 0 ==> grown(bytes, target).len()
            >= round_up_to_page(target),
{
    if target > bytes.len() {
        lemma_round_up_bounds(target);
    } else if bytes.len() as int % (PAGE_SIZE as int) == 0 {
        let p = PAGE_SIZE as int;
        let len = bytes.len() as int;
        lemma_fundamental_div_mod(target, p);
        lemma_mod_division_less_than_divisor(target, p);
        lemma_fundamental_div_mod(len, p);
        assert(round_up_to_page(target) <= len) by (nonlinear_arith)
            requires
                target == p * (target / p) + target % p,
                0 <= target % p < p,
                len == p * (len / p),
                target <= len,
                round_up_to_page(target) == pages_for(target) * p,
                (target % p == 0 ==> pages_for(target) == target / p),
                (target % p != 0 ==> pages_for(target) == target / p + 1),
                p == 65536,
        ;
    }
}

} // verus!
