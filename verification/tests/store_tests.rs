use paged_vfs::memory::MemRegion;
use paged_vfs::store::PagedStore;

const PAGE: u64 = 65536;

#[test]
fn write_read_round_trip() {
    let mut store = PagedStore::new(MemRegion::new());
    assert_eq!(store.capacity(), 0);
    store.write_at(10, &[7u8, 8, 9]).unwrap();
    let mut buf = vec![0u8; 3];
    store.read_at(10, &mut buf);
    assert_eq!(buf, vec![7u8, 8, 9]);
}

#[test]
fn read_beyond_written_is_zero() {
    let mut store = PagedStore::new(MemRegion::new());
    store.write_at(0, &[1u8, 2, 3, 4]).unwrap();
    assert_eq!(store.capacity(), PAGE);
    let mut buf = vec![0xAAu8; 8];
    store.read_at(100, &mut buf);
    assert_eq!(buf, vec![0u8; 8]);
    // the very last bytes of the grown page are zero too
    let mut tail = vec![0xAAu8; 16];
    store.read_at(PAGE - 16, &mut tail);
    assert_eq!(tail, vec![0u8; 16]);
}

#[test]
fn read_on_empty_store_leaves_buffer() {
    let store = PagedStore::new(MemRegion::new());
    let mut buf = vec![0x55u8; 4];
    store.read_at(0, &mut buf);
    assert_eq!(buf, vec![0x55u8; 4]);
}

#[test]
fn exists_delete_revive_cycle() {
    let mut store = PagedStore::new(MemRegion::new());
    assert!(!store.file_exists());
    store.write_at(0, &[42u8]).unwrap();
    assert!(store.file_exists());
    store.delete();
    assert!(!store.file_exists());
    assert_eq!(store.capacity(), PAGE);
    // any write that sets a non-zero byte within the first 16 bytes revives it
    store.write_at(15, &[1u8]).unwrap();
    assert!(store.file_exists());
    // a non-zero byte outside the sentinel does not
    store.delete();
    store.write_at(16, &[9u8]).unwrap();
    assert!(!store.file_exists());
}

#[test]
fn delete_on_empty_store_is_noop() {
    let mut store = PagedStore::new(MemRegion::new());
    store.delete();
    assert_eq!(store.capacity(), 0);
    assert!(!store.file_exists());
}

#[test]
fn resize_rounds_up_and_never_shrinks() {
    let mut store = PagedStore::new(MemRegion::new());
    store.resize(1).unwrap();
    assert_eq!(store.capacity(), PAGE);
    store.resize(PAGE + 1).unwrap();
    assert_eq!(store.capacity(), 2 * PAGE);
    // an exact page multiple is not rounded further
    store.resize(2 * PAGE).unwrap();
    assert_eq!(store.capacity(), 2 * PAGE);
    // a smaller target is a no-op
    store.resize(5).unwrap();
    assert_eq!(store.capacity(), 2 * PAGE);
    store.resize(0).unwrap();
    assert_eq!(store.capacity(), 2 * PAGE);
}

#[test]
fn resize_out_of_space_reports_error() {
    let mut store = PagedStore::new(MemRegion::new());
    let r = store.resize(u64::MAX);
    assert_eq!(r, Err(paged_vfs::error::VfsError::OutOfSpace));
    assert_eq!(store.capacity(), 0);
}

#[test]
fn write_grows_across_pages() {
    let mut store = PagedStore::new(MemRegion::new());
    let data = vec![0xABu8; 10];
    store.write_at(PAGE - 5, &data).unwrap();
    assert_eq!(store.capacity(), 2 * PAGE);
    let mut buf = vec![0u8; 10];
    store.read_at(PAGE - 5, &mut buf);
    assert_eq!(buf, data);
}

#[test]
fn write_preserves_other_bytes() {
    let mut store = PagedStore::new(MemRegion::new());
    store.write_at(0, &[1u8, 2, 3, 4, 5, 6, 7, 8]).unwrap();
    store.write_at(2, &[0xEEu8, 0xFF]).unwrap();
    let mut buf = vec![0u8; 8];
    store.read_at(0, &mut buf);
    assert_eq!(buf, vec![1u8, 2, 0xEE, 0xFF, 5, 6, 7, 8]);
}

#[test]
fn store_scenario_from_empty() {
    // store starts empty; a 4-byte write grows it to one page; the write
    // reads back; the next range reads zero; it exists; deletion clears
    // existence but keeps capacity
    let mut store = PagedStore::new(MemRegion::new());
    assert_eq!(store.capacity(), 0);
    store.write_at(0, &[1u8, 2, 3, 4]).unwrap();
    assert_eq!(store.capacity(), PAGE);
    let mut buf = vec![0u8; 4];
    store.read_at(0, &mut buf);
    assert_eq!(buf, vec![1u8, 2, 3, 4]);
    let mut buf2 = vec![9u8; 4];
    store.read_at(4, &mut buf2);
    assert_eq!(buf2, vec![0u8, 0, 0, 0]);
    assert!(store.file_exists());
    store.delete();
    assert!(!store.file_exists());
    assert_eq!(store.capacity(), PAGE);
}
