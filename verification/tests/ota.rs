use am03127::error::Error;
use am03127::ota::{validate_headers, BootSlots, MemSink, OtaUpdate, Slot};

fn sink_contents(sink: &MemSink) -> Vec<u8> {
    let mut out = Vec::new();
    let mut i = 0;
    while i < sink.len() {
        out.push(sink.byte_at(i));
        i += 1;
    }
    out
}

#[test]
fn wrong_content_type_is_rejected() {
    assert_eq!(validate_headers(b"text/plain", 10), Err(Error::BadRequest));
    assert_eq!(validate_headers(b"application/octet-strea", 10), Err(Error::BadRequest));
    assert_eq!(validate_headers(b"application/octet-streamX", 10), Err(Error::BadRequest));
}

#[test]
fn zero_declared_length_is_rejected_before_any_partition_lookup() {
    // the header check takes no partition information at all
    assert_eq!(validate_headers(b"application/octet-stream", 0), Err(Error::BadRequest));
    assert_eq!(validate_headers(b"application/octet-stream", 1), Ok(()));
}

#[test]
fn oversize_declared_length_is_rejected_before_any_write() {
    let sink = MemSink::new(8);
    match OtaUpdate::start(sink, 9) {
        Err(Error::BadRequest) => {}
        _ => panic!("an image larger than the partition must be rejected"),
    }
}

#[test]
fn streaming_flushes_aligned_prefixes_and_carries_the_rest() {
    let sink = MemSink::new(64);
    let mut update = OtaUpdate::start(sink, 10).unwrap();
    update.push(&[1, 2, 3, 4, 5, 6, 7]).unwrap();
    // only the largest aligned prefix reaches the partition
    assert_eq!(update.sink.len(), 4);
    assert_eq!(sink_contents(&update.sink), vec![1, 2, 3, 4]);
    update.push(&[8, 9, 10]).unwrap();
    assert_eq!(update.sink.len(), 8);
    let current = BootSlots { active: Slot::A, pending_validation: false };
    let slots = update.finish_and_activate(current).unwrap();
    assert_eq!(sink_contents(&update.sink), vec![1, 2, 3, 4, 5, 6, 7, 8, 9, 10]);
    assert_eq!(slots, BootSlots { active: Slot::B, pending_validation: true });
}

#[test]
fn activation_flips_either_slot() {
    let sink = MemSink::new(8);
    let mut update = OtaUpdate::start(sink, 4).unwrap();
    update.push(&[1, 2, 3, 4]).unwrap();
    let current = BootSlots { active: Slot::B, pending_validation: false };
    let slots = update.finish_and_activate(current).unwrap();
    assert_eq!(slots.active, Slot::A);
    assert!(slots.pending_validation);
}

#[test]
fn short_stream_is_rejected_at_finalize_without_activation() {
    let sink = MemSink::new(64);
    let mut update = OtaUpdate::start(sink, 10).unwrap();
    update.push(&[1, 2, 3, 4, 5, 6]).unwrap();
    let current = BootSlots { active: Slot::A, pending_validation: false };
    // no new boot configuration is emitted: the caller keeps `current`
    assert_eq!(update.finish_and_activate(current), Err(Error::BadRequest));
}

#[test]
fn stream_beyond_declared_length_is_rejected() {
    let sink = MemSink::new(64);
    let mut update = OtaUpdate::start(sink, 4).unwrap();
    assert_eq!(update.push(&[1, 2, 3, 4, 5]), Err(Error::BadRequest));
    update.push(&[1, 2, 3, 4]).unwrap();
    assert_eq!(update.push(&[5]), Err(Error::BadRequest));
}

#[test]
fn exact_stream_in_unaligned_chunks_arrives_byte_for_byte() {
    let sink = MemSink::new(32);
    let mut update = OtaUpdate::start(sink, 9).unwrap();
    update.push(&[10]).unwrap();
    update.push(&[11, 12]).unwrap();
    update.push(&[13, 14, 15]).unwrap();
    update.push(&[16, 17, 18]).unwrap();
    let current = BootSlots { active: Slot::A, pending_validation: true };
    update.finish_and_activate(current).unwrap();
    assert_eq!(sink_contents(&update.sink), vec![10, 11, 12, 13, 14, 15, 16, 17, 18]);
}
