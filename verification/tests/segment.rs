use starfish::crc::checksum_ieee;
use starfish::descriptor::Descriptor;
use starfish::segment::{
    write_chunk_header, write_file_header, Allocation, CommitlogError, CycleAction, Segment,
    DEFAULT_SIZE, SEGMENT_MAGIC,
};

#[test]
fn crc_of_the_check_string() {
    assert_eq!(checksum_ieee(b"123456789"), 0xcbf43926);
    assert_eq!(checksum_ieee(b""), 0);
}

#[test]
fn file_header_layout() {
    let d = Descriptor::create(0x0102030405060708);
    let mut buf = vec![0xaa];
    write_file_header(&mut buf, &d);
    assert_eq!(buf.len(), 21);
    assert_eq!(buf[0], 0xaa);
    assert_eq!(&buf[1..5], &SEGMENT_MAGIC.to_be_bytes());
    assert_eq!(&buf[1..5], b"SCLC");
    assert_eq!(&buf[5..9], &[0, 0, 0, 1]);
    assert_eq!(&buf[9..17], &[1, 2, 3, 4, 5, 6, 7, 8]);
    let mut checked = vec![0, 0, 0, 1];
    checked.extend_from_slice(&[1, 2, 3, 4, 5, 6, 7, 8]);
    assert_eq!(&buf[17..21], &checksum_ieee(&checked).to_be_bytes());
}

#[test]
fn chunk_header_layout() {
    let d = Descriptor::create(7);
    let mut buf = vec![];
    write_chunk_header(&mut buf, &d, 20, 4096);
    assert_eq!(buf.len(), 8);
    assert_eq!(&buf[0..4], &4096u32.to_be_bytes());
    let mut checked = 7u64.to_be_bytes().to_vec();
    checked.extend_from_slice(&20u32.to_be_bytes());
    assert_eq!(&buf[4..8], &checksum_ieee(&checked).to_be_bytes());
}

#[test]
fn empty_segment_cycles_to_nothing_or_a_flush() {
    let mut s = Segment::create(Descriptor::create(3));
    assert!(matches!(s.cycle(false), CycleAction::Done));
    assert!(matches!(s.cycle(true), CycleAction::FlushFromStart));
    assert_eq!(s.size_on_disk(), 0);
    assert_eq!(s.position(), 0);
    assert_eq!(s.descriptor().segment_id(), 3);
}

#[test]
fn allocation_checks_sizes() {
    let mut s = Segment::create(Descriptor::create(3));
    let max_size = 1 << 20;
    let max_mutation = max_size / 2;
    assert_eq!(
        s.allocate(max_mutation, max_size, max_mutation),
        Err(CommitlogError::MutationTooLarge { size: max_mutation + 12, max_size: max_mutation })
    );
    assert!(s.is_still_allocating(max_size));
    assert_eq!(s.allocate(100, max_size, max_mutation), Ok(Allocation::Accepted));
    assert!(s.is_still_allocating(max_size));
    // Would not fit in a segment of 100 bytes: the segment closes.
    assert_eq!(s.allocate(100, 100, max_mutation), Ok(Allocation::NeedsNewSegment));
    assert!(!s.is_still_allocating(max_size));
    assert_eq!(s.allocate(1, max_size, max_mutation), Ok(Allocation::NeedsNewSegment));
}

#[test]
fn flush_positions_only_grow() {
    let mut s = Segment::create(Descriptor::create(3));
    assert!(!s.needs_flush(0));
    assert!(s.needs_flush(10));
    s.record_flush(10);
    assert!(!s.needs_flush(10));
    s.record_flush(5);
    assert!(!s.needs_flush(10));
    assert!(s.needs_flush(11));
}

#[test]
fn default_buffer_size() {
    assert_eq!(DEFAULT_SIZE, 128 * 1024);
}

#[test]
fn flush_outcome_moves_the_durable_position_forward_only() {
    let mut s = Segment::create(Descriptor::create(3));
    assert!(s.needs_flush(4096));
    assert_eq!(s.flush_outcome(4096, false), Err(CommitlogError::IO));
    assert!(s.needs_flush(4096));
    assert_eq!(s.flush_outcome(4096, true), Ok(()));
    assert!(!s.needs_flush(4096));
    assert!(!s.needs_flush(100));
    assert_eq!(s.flush_outcome(100, true), Ok(()));
    assert!(!s.needs_flush(4096));
    assert!(s.needs_flush(4097));
}
