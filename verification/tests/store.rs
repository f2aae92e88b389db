use am03127::error::StorageFault;
use am03127::flash::MemFlash;
use am03127::store::Store;

#[test]
fn read_of_empty_store_finds_nothing() {
    let mut store = Store::new(MemFlash::new(128));
    assert_eq!(store.read(65), Ok(None));
}

#[test]
fn write_then_read_returns_value() {
    let mut store = Store::new(MemFlash::new(128));
    store.write(65, b"one").unwrap();
    assert_eq!(store.read(65), Ok(Some(b"one".to_vec())));
    assert_eq!(store.read(66), Ok(None));
}

#[test]
fn most_recent_write_wins() {
    let mut store = Store::new(MemFlash::new(128));
    store.write(65, b"one").unwrap();
    store.write(65, b"uno").unwrap();
    assert_eq!(store.read(65), Ok(Some(b"uno".to_vec())));
}

#[test]
fn tombstone_hides_earlier_write() {
    let mut store = Store::new(MemFlash::new(128));
    store.write(65, b"one").unwrap();
    store.delete(65).unwrap();
    assert_eq!(store.read(65), Ok(None));
}

#[test]
fn read_all_collapses_interleaved_writes_and_deletes() {
    let mut store = Store::new(MemFlash::new(256));
    store.write(65, b"one").unwrap();
    store.write(66, b"two").unwrap();
    store.write(65, b"uno").unwrap();
    store.write(67, b"three").unwrap();
    store.delete(66).unwrap();
    let mut items = store.read_all().unwrap();
    items.sort_by(|a, b| a.0.cmp(&b.0));
    assert_eq!(items.len(), 2);
    assert_eq!(items[0], (65, b"uno".to_vec()));
    assert_eq!(items[1], (67, b"three".to_vec()));
}

#[test]
fn delete_all_empties_and_restores_capacity() {
    // each record of key + 4-byte payload takes 8 bytes: four fit in 32
    let mut store = Store::new(MemFlash::new(32));
    store.write(65, b"aaaa").unwrap();
    store.write(66, b"bbbb").unwrap();
    store.write(67, b"cccc").unwrap();
    store.write(68, b"dddd").unwrap();
    assert_eq!(store.write(69, b"eeee"), Err(StorageFault::Full));
    store.delete_all().unwrap();
    assert_eq!(store.read_all(), Ok(vec![]));
    store.write(69, b"eeee").unwrap();
    store.write(70, b"ffff").unwrap();
    store.write(71, b"gggg").unwrap();
    store.write(72, b"hhhh").unwrap();
    assert_eq!(store.read(69), Ok(Some(b"eeee".to_vec())));
}

#[test]
fn region_exhaustion_reports_full() {
    let mut store = Store::new(MemFlash::new(16));
    store.write(65, b"12345678").unwrap();
    assert_eq!(store.write(66, b"12345678"), Err(StorageFault::Full));
    // the failed write leaves the earlier record intact
    assert_eq!(store.read(65), Ok(Some(b"12345678".to_vec())));
}

#[test]
fn oversize_item_reports_item_too_big() {
    let mut store = Store::new(MemFlash::new(1024));
    let big = vec![0u8; 300];
    assert_eq!(store.write(65, &big), Err(StorageFault::ItemTooBig));
}

#[test]
fn garbage_region_reports_corrupted() {
    let mut store = Store::new(MemFlash::from_bytes(vec![0x00; 32]));
    assert_eq!(store.read(65), Err(StorageFault::Corrupted));
    assert_eq!(store.write(65, b"x"), Err(StorageFault::Corrupted));
}

#[test]
fn erase_recovers_garbage_region() {
    let mut store = Store::new(MemFlash::from_bytes(vec![0x00; 32]));
    store.delete_all().unwrap();
    store.write(65, b"ok").unwrap();
    assert_eq!(store.read(65), Ok(Some(b"ok".to_vec())));
}
