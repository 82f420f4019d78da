use pi_base::file::{
    buffer_capacity, next_chunk_len, open_flags, pread_request_valid, pwrite_chunks, read_chain,
    read_chunks, read_step, sync_plan, working_buffer_size, write_chain, write_step,
    AsynFileOptions, ChainEnd, IoEvent, MemFile, ReadStep, WriteOptions, WriteStep,
    DEFAULT_BLOCK_SIZE, OPEN_FILE_PRIORITY, READ_FILE_PRIORITY, REMOVE_FILE_PRIORITY,
    RENAME_FILE_PRIORITY, WRITE_FILE_PRIORITY,
};

#[test]
fn open_flags_map_each_variant() {
    let f = open_flags(&AsynFileOptions::OnlyRead(1));
    assert!(f.read && !f.write && !f.append && !f.create && f.multiplier == 1);
    let f = open_flags(&AsynFileOptions::OnlyWrite(2));
    assert!(!f.read && f.write && !f.append && f.create && f.multiplier == 2);
    let f = open_flags(&AsynFileOptions::OnlyAppend(3));
    assert!(!f.read && !f.write && f.append && f.create && f.multiplier == 3);
    let f = open_flags(&AsynFileOptions::ReadAppend(4));
    assert!(f.read && !f.write && f.append && f.create && f.multiplier == 4);
    let f = open_flags(&AsynFileOptions::ReadWrite(5));
    assert!(f.read && f.write && !f.append && f.create && f.multiplier == 5);
}

#[test]
fn sync_plan_maps_each_variant() {
    let p = sync_plan(&WriteOptions::NoSync);
    assert!(!p.flush && !p.sync_data && !p.sync_all);
    let p = sync_plan(&WriteOptions::Flush);
    assert!(p.flush && !p.sync_data && !p.sync_all);
    let p = sync_plan(&WriteOptions::Sync(true));
    assert!(p.flush && p.sync_data && !p.sync_all);
    let p = sync_plan(&WriteOptions::Sync(false));
    assert!(!p.flush && p.sync_data && !p.sync_all);
    let p = sync_plan(&WriteOptions::SyncAll(true));
    assert!(p.flush && !p.sync_data && p.sync_all);
    let p = sync_plan(&WriteOptions::SyncAll(false));
    assert!(!p.flush && !p.sync_data && p.sync_all);
}

#[test]
fn buffer_sizing() {
    assert_eq!(working_buffer_size(DEFAULT_BLOCK_SIZE, 1), 8192);
    assert_eq!(working_buffer_size(4096, 3), 12288);
    assert_eq!(working_buffer_size(usize::MAX, 2), usize::MAX);
    assert_eq!(working_buffer_size(4096, 0), 0);
    assert_eq!(buffer_capacity(5, 100), 5);
    assert_eq!(buffer_capacity(100, 5), 5);
    assert_eq!(buffer_capacity(0, 10), 0);
    assert_eq!(next_chunk_len(100, 40, 16), 16);
    assert_eq!(next_chunk_len(100, 90, 16), 10);
}

#[test]
fn file_operation_priorities() {
    assert_eq!(OPEN_FILE_PRIORITY, 10);
    assert_eq!(READ_FILE_PRIORITY, 100);
    assert_eq!(WRITE_FILE_PRIORITY, 60);
    assert_eq!(RENAME_FILE_PRIORITY, 30);
    assert_eq!(REMOVE_FILE_PRIORITY, 10);
}

#[test]
fn write_then_read_round_trip() {
    // write "Hello World!" at offset 8, read 12 bytes at offset 8
    let mut f = MemFile::new();
    let bytes = Vec::from("Hello World!".as_bytes());
    f.pwrite(8, bytes.as_slice());
    assert_eq!(f.len(), 20);
    let back = f.pread(8, 12);
    assert_eq!(back, bytes);
    // the zero-filled gap before the write
    assert_eq!(f.pread(0, 8), vec![0u8; 8]);
}

#[test]
fn zero_length_read_is_empty_not_error() {
    let f = MemFile::new();
    assert_eq!(f.pread(0, 0), Vec::<u8>::new());
    assert_eq!(f.pread(0, 100), Vec::<u8>::new());
    let r = read_chunks(&f, 0, 0, 8);
    assert_eq!(r, Vec::<u8>::new());
}

#[test]
fn partial_write_progression() {
    // a sink that accepts at most 16 bytes per call: 64 bytes take four
    // submissions and land whole
    let mut f = MemFile::new();
    let bytes: Vec<u8> = (0..64u8).collect();
    let rounds = pwrite_chunks(&mut f, 0, &bytes, 16);
    assert_eq!(rounds, 4);
    assert_eq!(f.pread(0, 64), bytes);
}

#[test]
fn chunked_write_with_remainder() {
    let mut f = MemFile::new();
    let bytes: Vec<u8> = (0..10u8).collect();
    let rounds = pwrite_chunks(&mut f, 3, &bytes, 4);
    assert_eq!(rounds, 3);
    assert_eq!(f.pread(3, 10), bytes);
    let rounds = pwrite_chunks(&mut f, 0, &Vec::new(), 4);
    assert_eq!(rounds, 0);
}

#[test]
fn disjoint_positional_writes_read_in_offset_order() {
    let b1 = Vec::from("abcd".as_bytes());
    let b2 = Vec::from("wxyz".as_bytes());
    // one order
    let mut f = MemFile::new();
    f.pwrite(0, b1.as_slice());
    f.pwrite(4, b2.as_slice());
    let union = f.pread(0, 8);
    assert_eq!(union, Vec::from("abcdwxyz".as_bytes()));
    // the other order: same bytes
    let mut g = MemFile::new();
    g.pwrite(4, b2.as_slice());
    g.pwrite(0, b1.as_slice());
    assert_eq!(g.pread(0, 8), union);
}

#[test]
fn positional_write_past_end_uses_prefix_length() {
    // regression for continuing a positional write at offset beyond the
    // buffer length: the cursor is the already-written prefix, never the
    // absolute file offset
    let mut f = MemFile::new();
    let bytes = Vec::from("tail!".as_bytes());
    let rounds = pwrite_chunks(&mut f, 100, &bytes, 2);
    assert_eq!(rounds, 3);
    assert_eq!(f.len(), 105);
    assert_eq!(f.pread(100, 5), bytes);
    assert_eq!(f.pread(95, 5), vec![0u8; 5]);
}

#[test]
fn chunked_read_truncates_at_end_of_file() {
    let mut f = MemFile::new();
    let bytes: Vec<u8> = (10..20u8).collect();
    f.pwrite(0, bytes.as_slice());
    // asking for far more than the file holds returns what is there
    let r = read_chunks(&f, 0, 1000, 3);
    assert_eq!(r, bytes);
    // reading beyond the end returns nothing
    assert_eq!(read_chunks(&f, 50, 10, 3), Vec::<u8>::new());
    // a window inside the file
    assert_eq!(read_chunks(&f, 2, 4, 3), bytes[2..6].to_vec());
}

#[test]
fn write_step_decisions() {
    // interrupted: retry with identical arguments
    assert_eq!(write_step(0, 10, IoEvent::Interrupted), WriteStep::Retry);
    // any other failure is reported
    assert_eq!(write_step(0, 10, IoEvent::Failed), WriteStep::ReportFailure);
    // zero bytes accepted of a non-empty suffix
    assert_eq!(write_step(4, 10, IoEvent::Transferred(0)), WriteStep::ReportWriteZero);
    // partial transfer advances the cursor and re-submits
    assert_eq!(write_step(4, 10, IoEvent::Transferred(2)), WriteStep::Advance(6));
    // the last byte landed
    assert_eq!(write_step(4, 10, IoEvent::Transferred(6)), WriteStep::Done);
}

#[test]
fn read_step_decisions() {
    assert_eq!(read_step(0, 10, 4, IoEvent::Interrupted), ReadStep::Retry);
    assert_eq!(read_step(0, 10, 4, IoEvent::Failed), ReadStep::ReportFailure);
    // a short transfer is the end of the file: truncate to what was read
    assert_eq!(read_step(4, 10, 4, IoEvent::Transferred(2)), ReadStep::Eof(6));
    assert_eq!(read_step(4, 10, 4, IoEvent::Transferred(0)), ReadStep::Eof(4));
    // a full chunk either completes the buffer or continues
    assert_eq!(read_step(6, 10, 4, IoEvent::Transferred(4)), ReadStep::Complete);
    assert_eq!(read_step(0, 10, 4, IoEvent::Transferred(4)), ReadStep::Continue(4));
}

#[test]
fn write_chain_retries_interrupts_and_completes() {
    let mut f = MemFile::new();
    let bytes = Vec::from("abcdefgh".as_bytes());
    // two interrupts, then partial transfers: retried and re-submitted
    let events = vec![
        IoEvent::Interrupted,
        IoEvent::Transferred(3),
        IoEvent::Interrupted,
        IoEvent::Transferred(3),
        IoEvent::Transferred(100),
    ];
    let (end, written) = write_chain(&mut f, 2, &bytes, &events);
    assert_eq!(end, ChainEnd::Completed);
    assert_eq!(written, 8);
    assert_eq!(f.pread(2, 8), bytes);
}

#[test]
fn write_chain_reports_write_zero_once() {
    let mut f = MemFile::new();
    let bytes = Vec::from("abcd".as_bytes());
    let events = vec![IoEvent::Transferred(2), IoEvent::Transferred(0)];
    let (end, written) = write_chain(&mut f, 0, &bytes, &events);
    assert_eq!(end, ChainEnd::WriteZero);
    // partial progress landed but was not reported as success
    assert_eq!(written, 2);
    assert_eq!(f.pread(0, 2), Vec::from("ab".as_bytes()));
    assert_eq!(f.len(), 2);
}

#[test]
fn write_chain_reports_failure_with_progress_reset_for_caller() {
    let mut f = MemFile::new();
    let bytes = Vec::from("abcd".as_bytes());
    let events = vec![IoEvent::Transferred(1), IoEvent::Failed];
    let (end, written) = write_chain(&mut f, 0, &bytes, &events);
    assert_eq!(end, ChainEnd::Failed);
    assert_eq!(written, 1);
}

#[test]
fn write_chain_exhausted_stream_is_not_success() {
    let mut f = MemFile::new();
    let bytes = Vec::from("abcd".as_bytes());
    let events = vec![IoEvent::Transferred(1)];
    let (end, written) = write_chain(&mut f, 0, &bytes, &events);
    assert_eq!(end, ChainEnd::Exhausted);
    assert_eq!(written, 1);
}

#[test]
fn write_chain_empty_suffix_completes_immediately() {
    let mut f = MemFile::new();
    let (end, written) = write_chain(&mut f, 9, &Vec::new(), &Vec::new());
    assert_eq!(end, ChainEnd::Completed);
    assert_eq!(written, 0);
    assert_eq!(f.len(), 0);
}

#[test]
fn read_chain_accumulates_through_interrupts() {
    let mut f = MemFile::new();
    let bytes: Vec<u8> = (0..12u8).collect();
    f.pwrite(0, bytes.as_slice());
    let events = vec![
        IoEvent::Interrupted,
        IoEvent::Transferred(4),
        IoEvent::Transferred(4),
        IoEvent::Transferred(4),
    ];
    let r = read_chain(&f, 0, 12, 4, &events).unwrap();
    assert_eq!(r, bytes);
}

#[test]
fn read_chain_short_transfer_is_end_of_file() {
    let mut f = MemFile::new();
    let bytes: Vec<u8> = (0..12u8).collect();
    f.pwrite(0, bytes.as_slice());
    // the platform hands back less than the chunk: the buffer comes back
    // truncated to what was read, and that is not an error
    let events = vec![IoEvent::Transferred(4), IoEvent::Transferred(2)];
    let r = read_chain(&f, 0, 12, 4, &events).unwrap();
    assert_eq!(r, bytes[0..6].to_vec());
}

#[test]
fn read_chain_reports_failure() {
    let mut f = MemFile::new();
    f.pwrite(0, &[1, 2, 3]);
    let events = vec![IoEvent::Failed];
    assert!(read_chain(&f, 0, 3, 4, &events).is_none());
}

#[test]
fn read_chain_clips_at_end_of_store() {
    let mut f = MemFile::new();
    f.pwrite(0, &[7, 8, 9]);
    // asking for more than the store holds ends at the store's end
    let events = vec![IoEvent::Transferred(100), IoEvent::Transferred(100)];
    let r = read_chain(&f, 1, 10, 2, &events).unwrap();
    assert_eq!(r, vec![8, 9]);
}

#[test]
fn pread_request_validity() {
    assert!(!pread_request_valid(0));
    assert!(pread_request_valid(1));
    assert!(pread_request_valid(250));
}

#[test]
fn write_chain_success_reports_whole_length() {
    // a positional write of 105 bytes whose single transfer succeeds
    // completes and reports the whole requested length, never a partial
    // count
    let mut f = MemFile::new();
    let bytes: Vec<u8> = (0..105u8).map(|i| i.wrapping_mul(3)).collect();
    let events = vec![IoEvent::Transferred(105)];
    let (end, written) = write_chain(&mut f, 8, &bytes, &events);
    assert_eq!(end, ChainEnd::Completed);
    assert_eq!(written, bytes.len());
    assert_eq!(f.pread(8, 105), bytes);
}
