use crate::error::VfsError;
use crate::lock::{
    coordinator_after, coordinator_inv, lemma_count_excluding_index, lemma_count_push,
    lemma_inv_compatible, lemma_request_preserves_inv, lock_granted, level_after, rank,
    LockCoordinator, LockKind,
};
use crate::memory::{region_bytes, MemRegion, PAGE_SIZE};
use crate::store::{deleted, exists_spec, grown, written, PagedStore};
use vstd::prelude::*;

verus! {

/// The single logical database name this adapter recognizes.
pub open spec fn spec_db_name() -> Seq<char> {
    ":memory:"@
}

/// The single logical database name this adapter recognizes.
pub fn db_name() -> (r: &'static str)
    ensures
        r@ == spec_db_name(),
{
    ":memory:"
}

/// The kind of file the query engine asks to open.
#[derive(Clone, Copy, Debug, PartialEq, Eq, Structural)]
pub enum OpenKind {
    /// The main database file: the only kind this adapter supports.
    MainDb,
    MainJournal,
    TempDb,
    TempJournal,
    TransientDb,
    SubJournal,
    SuperJournal,
    Wal,
}

/// Relies on `rand::fill`: overwrites the buffer in place with bytes from
/// the process-wide randomness source. Nothing can be promised of the bytes
/// themselves.
#[verifier::external_body]
fn fill_random(buf: &mut Vec<u8>)
    ensures
        final(buf)@.len() == old(buf)@.len(),
{
    rand::fill(buf.as_mut_slice());
}

/// The storage backend for one logical database file: the paged byte store,
/// the lock coordinator shared by every handle opened against it, and (as
/// ghost state) the lock level of each handle ever opened, on which the
/// coordinator invariant is maintained.
pub struct VfsPages {
    store: PagedStore,
    coordinator: LockCoordinator,
    handle_levels: Ghost<Seq<LockKind>>,
}

/// One open reference to the logical database file: its own current lock
/// level, plus the (ghost) index of its slot in the adapter's level record.
/// All I/O and locking goes through the shared `VfsPages`.
pub struct VfsConnection {
    lock: LockKind,
    conn_id: Ghost<int>,
}

impl VfsPages {
    /// The bytes currently held by the store.
    pub closed spec fn bytes(self) -> Seq<u8> {
        self.store.bytes()
    }

    /// The shared lock counters.
    pub closed spec fn lock_state(self) -> LockCoordinator {
        self.coordinator
    }

    /// The lock level of each handle opened so far, by handle index.
    pub closed spec fn levels(self) -> Seq<LockKind> {
        self.handle_levels@
    }

    /// Well-formedness: the store is page-granular and the lock counters
    /// agree with the handles' levels.
    pub closed spec fn wf(self) -> bool {
        &&& self.store.wf()
        &&& coordinator_inv(self.coordinator, self.handle_levels@)
    }

    /// A backend over the given memory region, with no lock held.
    pub fn new(memory: MemRegion) -> (r: VfsPages)
        requires
            region_bytes(memory).len() as int % (PAGE_SIZE as int) == 0,
        ensures
            r.wf(),
            r.bytes() == region_bytes(memory),
            r.levels() == Seq::<LockKind>::empty(),
            r.lock_state().shared_count == 0,
            r.lock_state().write_intent is None,
    {
        VfsPages {
            store: PagedStore::new(memory),
            coordinator: LockCoordinator::new(),
            handle_levels: Ghost(Seq::empty()),
        }
    }

    /// Opens a handle to the logical database file. Succeeds exactly when
    /// the name is the recognized one and the kind is the main database;
    /// otherwise the name fails as not found, or the kind as denied.
    pub fn open(&mut self, file_name: &str, kind: OpenKind) -> (r: Result<
        VfsConnection,
        VfsError,
    >)
        requires
            old(self).wf(),
        ensures
            final(self).wf(),
            final(self).bytes() == old(self).bytes(),
            final(self).lock_state() == old(self).lock_state(),
            r is Ok <==> (file_name@ == spec_db_name() && kind == OpenKind::MainDb),
            (match r {
                Ok(conn) => {
                    &&& final(self).levels() == old(self).levels().push(LockKind::Unlocked)
                    &&& conn.valid(*final(self))
                    &&& conn.level() == LockKind::Unlocked
                    &&& conn.id() == old(self).levels().len()
                },
                Err(e) => {
                    &&& final(self).levels() == old(self).levels()
                    &&& (e == VfsError::NotFound <==> file_name@ != spec_db_name())
                    &&& (e == VfsError::PermissionDenied <==> (file_name@ == spec_db_name()
                        && kind != OpenKind::MainDb))
                },
            }),
    {
        let name_matches = file_name.to_owned() == db_name().to_owned();
        if !name_matches {
            return Err(VfsError::NotFound);
        }
        if kind != OpenKind::MainDb {
            return Err(VfsError::PermissionDenied);
        }
        let ghost id = self.handle_levels@.len() as int;
        proof {
            lemma_count_push(self.handle_levels@, LockKind::Unlocked, LockKind::Shared);
            lemma_count_push(self.handle_levels@, LockKind::Unlocked, LockKind::Reserved);
            lemma_count_push(self.handle_levels@, LockKind::Unlocked, LockKind::Pending);
            lemma_count_push(self.handle_levels@, LockKind::Unlocked, LockKind::Exclusive);
        }
        self.handle_levels = Ghost(self.handle_levels@.push(LockKind::Unlocked));
        Ok(VfsConnection { lock: LockKind::Unlocked, conn_id: Ghost(id) })
    }

    /// Logical deletion of the database file: zeroes the existence sentinel,
    /// keeping capacity. The name is not validated, as in the storage
    /// contract.
    pub fn delete(&mut self, _file_name: &str) -> (r: Result<(), VfsError>)
        requires
            old(self).wf(),
        ensures
            final(self).wf(),
            r is Ok,
            final(self).bytes() == deleted(old(self).bytes()),
            final(self).lock_state() == old(self).lock_state(),
            final(self).levels() == old(self).levels(),
    {
        self.store.delete();
        Ok(())
    }

    /// Whether the logical file exists: the name must match, the store must
    /// have capacity, and at least one sentinel byte must be non-zero.
    pub fn file_exists(&self, file_name: &str) -> (r: Result<bool, VfsError>)
        requires
            self.wf(),
        ensures
            (match r {
                Ok(b) => b == (file_name@ == spec_db_name() && exists_spec(self.bytes())),
                Err(_) => false,
            }),
    {
        let name_matches = file_name.to_owned() == db_name().to_owned();
        if !name_matches {
            return Ok(false);
        }
        Ok(self.store.file_exists())
    }

    /// The name handed out for temporary files: always the single recognized
    /// logical name, as there is no true temporary-file support.
    pub fn temporary_name(&self) -> (r: String)
        ensures
            r@ == spec_db_name(),
    {
        db_name().to_owned()
    }

    /// Fills the buffer from the process-wide randomness source.
    pub fn random(&self, buffer: &mut Vec<u8>)
        ensures
            final(buffer)@.len() == old(buffer)@.len(),
    {
        fill_random(buffer);
    }
}

impl VfsConnection {
    /// The lock level this handle currently holds.
    pub closed spec fn level(self) -> LockKind {
        self.lock
    }

    /// The handle's slot in the adapter's level record.
    pub closed spec fn id(self) -> int {
        self.conn_id@
    }

    /// Whether this handle belongs to the given backend: its slot exists and
    /// records exactly the level the handle holds.
    pub open spec fn valid(self, vfs: VfsPages) -> bool {
        &&& 0 <= self.id() < vfs.levels().len()
        &&& vfs.levels()[self.id()] == self.level()
    }

    /// Current size of the database file in bytes: the store's capacity.
    pub fn size(&self, vfs: &VfsPages) -> (r: u64)
        requires
            vfs.wf(),
        ensures
            r as int == vfs.bytes().len(),
    {
        vfs.store.capacity()
    }

    /// Reads `buf.len()` bytes at `offset`. A store with no capacity leaves
    /// `buf` untouched (an all-zero read); otherwise the range must lie
    /// within capacity, and never-written bytes read as zero.
    pub fn read_exact_at(&self, vfs: &VfsPages, buf: &mut Vec<u8>, offset: u64) -> (r: Result<
        (),
        VfsError,
    >)
        requires
            vfs.wf(),
            vfs.bytes().len() == 0 || offset as int + old(buf)@.len() as int <= vfs.bytes().len(),
        ensures
            r is Ok,
            final(buf)@.len() == old(buf)@.len(),
            vfs.bytes().len() == 0 ==> final(buf)@ == old(buf)@,
            vfs.bytes().len() > 0 ==> final(buf)@ == vfs.bytes().subrange(
                offset as int,
                offset as int + old(buf)@.len() as int,
            ),
    {
        vfs.store.read_at(offset, buf);
        Ok(())
    }

    /// Writes `buf` at `offset`, growing the store page by page to cover the
    /// range first. Out-of-space is the only error, and the store is then
    /// unchanged; a range already within capacity always succeeds.
    pub fn write_all_at(&self, vfs: &mut VfsPages, buf: &[u8], offset: u64) -> (r: Result<
        (),
        VfsError,
    >)
        requires
            old(vfs).wf(),
        ensures
            final(vfs).wf(),
            final(vfs).lock_state() == old(vfs).lock_state(),
            final(vfs).levels() == old(vfs).levels(),
            offset as int + buf@.len() as int <= old(vfs).bytes().len() ==> r is Ok,
            (match r {
                Ok(()) => final(vfs).bytes() == written(
                    grown(old(vfs).bytes(), offset as int + buf@.len() as int),
                    offset as int,
                    buf@,
                ),
                Err(e) => e == VfsError::OutOfSpace && final(vfs).bytes() == old(vfs).bytes(),
            }),
    {
        vfs.store.write_at(offset, buf)
    }

    /// Synchronization is a no-op: the backing memory is durable through the
    /// host's own persistence mechanism.
    pub fn sync(&self, _data_only: bool) -> (r: Result<(), VfsError>)
        ensures
            r is Ok,
    {
        Ok(())
    }

    /// Grows the file to at least `size` bytes, rounded up to page
    /// granularity; never shrinks. Out-of-space is the only error, and the
    /// store is then unchanged.
    pub fn set_len(&self, vfs: &mut VfsPages, size: u64) -> (r: Result<(), VfsError>)
        requires
            old(vfs).wf(),
        ensures
            final(vfs).wf(),
            final(vfs).lock_state() == old(vfs).lock_state(),
            final(vfs).levels() == old(vfs).levels(),
            size as int <= old(vfs).bytes().len() ==> r is Ok,
            (match r {
                Ok(()) => final(vfs).bytes() == grown(old(vfs).bytes(), size as int),
                Err(e) => e == VfsError::OutOfSpace && final(vfs).bytes() == old(vfs).bytes(),
            }),
    {
        vfs.store.resize(size)
    }

    /// Requests the lock level `to` from the shared coordinator, following
    /// the five-level transition rules; updates this handle's level and
    /// returns whether the request was granted. Never blocks. (The length
    /// bound is a machine limit: the shared count is a 64-bit integer.)
    pub fn lock(&mut self, vfs: &mut VfsPages, to: LockKind) -> (granted: bool)
        requires
            old(vfs).wf(),
            old(self).valid(*old(vfs)),
            to == LockKind::Shared ==> old(vfs).levels().len() <= u64::MAX as int,
        ensures
            final(vfs).wf(),
            final(self).valid(*final(vfs)),
            final(self).id() == old(self).id(),
            final(vfs).bytes() == old(vfs).bytes(),
            granted == lock_granted(old(vfs).lock_state(), old(self).level(), to),
            final(self).level() == level_after(old(vfs).lock_state(), old(self).level(), to),
            final(vfs).lock_state() == coordinator_after(
                old(vfs).lock_state(),
                old(self).level(),
                to,
            ),
            final(vfs).levels() == old(vfs).levels().update(
                old(self).id(),
                final(self).level(),
            ),
            granted ==> final(self).level() == to,
    {
        proof {
            lemma_inv_compatible(vfs.coordinator, vfs.handle_levels@, self.conn_id@);
            if to == LockKind::Shared && self.lock != LockKind::Shared {
                lemma_count_excluding_index(vfs.handle_levels@, self.conn_id@, LockKind::Shared);
            }
            lemma_request_preserves_inv(vfs.coordinator, vfs.handle_levels@, self.conn_id@, to);
        }
        let r = vfs.coordinator.request(self.lock, to);
        self.lock = r.1;
        vfs.handle_levels = Ghost(vfs.handle_levels@.update(self.conn_id@, self.lock));
        r.0
    }

    /// The lock level this handle currently holds.
    pub fn current_lock(&self) -> (r: LockKind)
        ensures
            r == self.level(),
    {
        self.lock
    }

    /// Whether a write reservation is outstanding: this handle holds a level
    /// above Shared, or the coordinator records any write intent.
    pub fn reserved(&self, vfs: &VfsPages) -> (r: bool)
        ensures
            r == (rank(self.level()) > 1 || vfs.lock_state().write_intent is Some),
    {
        if crate::lock::level_rank(self.lock) > 1 {
            return true;
        }
        match vfs.coordinator.write_intent {
            Some(_) => true,
            None => false,
        }
    }

    /// Closes the handle, forcing its lock down to Unlocked so that its
    /// contribution to the shared counters is released: locks never leak.
    pub fn close(self, vfs: &mut VfsPages)
        requires
            old(vfs).wf(),
            self.valid(*old(vfs)),
        ensures
            final(vfs).wf(),
            final(vfs).bytes() == old(vfs).bytes(),
            final(vfs).lock_state() == coordinator_after(
                old(vfs).lock_state(),
                self.level(),
                LockKind::Unlocked,
            ),
            final(vfs).levels() == old(vfs).levels().update(self.id(), LockKind::Unlocked),
    {
        proof {
            lemma_inv_compatible(vfs.coordinator, vfs.handle_levels@, self.conn_id@);
            lemma_request_preserves_inv(
                vfs.coordinator,
                vfs.handle_levels@,
                self.conn_id@,
                LockKind::Unlocked,
            );
        }
        let _r = vfs.coordinator.request(self.lock, LockKind::Unlocked);
        vfs.handle_levels = Ghost(
            vfs.handle_levels@.update(self.conn_id@, LockKind::Unlocked),
        );
    }
}

} // verus!
