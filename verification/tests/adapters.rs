use layered_io::{
    Activity, Bufferable, Closeable, IoError, LayeredDuplexer, LayeredReader, LayeredWriter,
    ReadLayered, ReadStep, ScriptedReader, ScriptedWriter, SliceReader, Status, VecDuplex,
    VecSink, VecSource, WriteLayered, WriteStep,
};

#[test]
fn test_slice_read_with_status() {
    let mut reader = SliceReader::new(b"hello world!");
    let mut buf = vec![0; 5];
    assert_eq!(reader.read_with_status(&mut buf).unwrap(), (5, Status::active()));
    assert_eq!(buf, b"hello");
    assert_eq!(reader.read_with_status(&mut buf).unwrap(), (5, Status::active()));
    assert_eq!(buf, b" worl");
    assert_eq!(reader.read_with_status(&mut buf).unwrap(), (2, Status::End));
    assert_eq!(&buf[..2], b"d!");
    assert_eq!(reader.read_with_status(&mut buf).unwrap(), (0, Status::End));
}

#[test]
fn test_slice_read() {
    let mut reader = SliceReader::new(b"hello world!");
    let mut buf = vec![0; 5];
    assert_eq!(reader.read(&mut buf).unwrap(), 5);
    assert_eq!(buf, b"hello");
    assert_eq!(reader.read(&mut buf).unwrap(), 5);
    assert_eq!(buf, b" worl");
    assert_eq!(reader.read(&mut buf).unwrap(), 2);
    assert_eq!(&buf[..2], b"d!");
    assert_eq!(reader.read(&mut buf).unwrap(), 0);
}

#[test]
fn test_layered_reader() {
    let input = VecSource::new(b"hello world".to_vec());
    let mut reader = LayeredReader::new(input);
    let mut s = String::new();
    reader.read_to_string(&mut s).unwrap();
    assert_eq!(s, "hello world");
}

#[test]
fn test_layered_duplexion() {
    let input = VecDuplex::new(b"hello world".to_vec());
    let mut reader = LayeredDuplexer::new(input);
    let mut s = String::new();
    reader.read_to_string(&mut s).unwrap();
    assert_eq!(s, "hello world");
}

#[test]
fn reader_reports_end_only_on_the_probe_after_the_data() {
    // Unlike SliceReader, a wrapped transport signals its end with a
    // zero-byte read, so End arrives one call after the last data.
    let mut reader = LayeredReader::new(VecSource::new(b"abc".to_vec()));
    let mut buf = vec![0; 8];
    assert_eq!(reader.read_with_status(&mut buf).unwrap(), (3, Status::active()));
    assert_eq!(&buf[..3], b"abc");
    assert_eq!(reader.read_with_status(&mut buf).unwrap(), (0, Status::End));
    assert_eq!(reader.read_with_status(&mut buf).unwrap(), (0, Status::End));
}

#[test]
fn line_by_line_mode_pushes_at_newline() {
    let steps = vec![
        ReadStep::Chunk(b"ab\n".to_vec()),
        ReadStep::Chunk(b"cd".to_vec()),
    ];
    let mut reader = LayeredReader::line_by_line(ScriptedReader::new(steps));
    let mut buf = vec![0; 5];
    // The read ends right after the newline boundary: Push.
    assert_eq!(reader.read_with_status(&mut buf).unwrap(), (3, Status::push()));
    assert_eq!(&buf[..3], b"ab\n");
    // A read that does not end at a newline reports Active.
    assert_eq!(reader.read_with_status(&mut buf).unwrap(), (2, Status::active()));
    assert_eq!(&buf[..2], b"cd");
}

#[test]
fn maybe_terminal_detects_line_discipline() {
    let steps = vec![ReadStep::Chunk(b"hi\n".to_vec())];
    let mut interactive = LayeredReader::maybe_terminal(ScriptedReader::new_interactive(steps));
    let mut buf = vec![0; 5];
    assert_eq!(interactive.read_with_status(&mut buf).unwrap(), (3, Status::push()));

    let steps = vec![ReadStep::Chunk(b"hi\n".to_vec())];
    let mut plain = LayeredReader::maybe_terminal(ScriptedReader::new(steps));
    let mut buf = vec![0; 5];
    assert_eq!(plain.read_with_status(&mut buf).unwrap(), (3, Status::active()));
}

#[test]
fn eos_as_push_keeps_the_stream_open() {
    let steps = vec![
        ReadStep::Chunk(b"x".to_vec()),
        ReadStep::Eos,
        ReadStep::Chunk(b"y".to_vec()),
    ];
    let mut reader = LayeredReader::with_eos_as_push(ScriptedReader::new(steps));
    let mut buf = vec![0; 4];
    assert_eq!(reader.read_with_status(&mut buf).unwrap(), (1, Status::active()));
    assert_eq!(&buf[..1], b"x");
    // The transport's end-of-stream becomes a push, and the stream stays
    // open: the next read sees data that arrived later.
    assert_eq!(reader.read_with_status(&mut buf).unwrap(), (0, Status::push()));
    assert_eq!(reader.read_with_status(&mut buf).unwrap(), (1, Status::active()));
    assert_eq!(&buf[..1], b"y");
    assert_eq!(reader.read_with_status(&mut buf).unwrap(), (0, Status::push()));
}

#[test]
fn interrupted_read_is_reported_as_open_zero() {
    let steps = vec![ReadStep::Interrupt, ReadStep::Chunk(b"hi".to_vec())];
    let mut reader = LayeredReader::new(ScriptedReader::new(steps));
    let mut buf = vec![0; 4];
    assert_eq!(reader.read_with_status(&mut buf).unwrap(), (0, Status::active()));
    assert_eq!(reader.read_with_status(&mut buf).unwrap(), (2, Status::active()));
    assert_eq!(&buf[..2], b"hi");
}

#[test]
fn read_fault_abandons_the_reader() {
    let steps = vec![ReadStep::Chunk(b"a".to_vec()), ReadStep::Fault];
    let mut reader = LayeredReader::new(ScriptedReader::new(steps));
    let mut collected = Vec::new();
    assert_eq!(reader.read_to_end(&mut collected).unwrap_err(), IoError::Other);
    // The destination was rolled back, and the fault implicitly abandoned
    // the stream: subsequent reads report the end.
    assert_eq!(collected, b"");
    let mut buf = vec![0; 4];
    assert_eq!(reader.read_with_status(&mut buf).unwrap(), (0, Status::End));
}

#[test]
fn read_to_end_retries_interrupts() {
    let steps = vec![
        ReadStep::Chunk(b"ab".to_vec()),
        ReadStep::Interrupt,
        ReadStep::Chunk(b"cd".to_vec()),
    ];
    let mut reader = LayeredReader::new(ScriptedReader::new(steps));
    let mut collected = Vec::new();
    assert_eq!(reader.read_to_end(&mut collected).unwrap(), 4);
    assert_eq!(collected, b"abcd");
}

#[test]
fn closed_writer_fails_every_operation() {
    let mut writer = LayeredWriter::new(VecSink::new());
    assert_eq!(writer.write(b"ok").unwrap(), 2);
    assert_eq!(writer.close(), Ok(()));
    // After close() succeeds, every subsequent operation reports the
    // fixed "stream already ended" error.
    assert_eq!(writer.write(b"nope").unwrap_err(), IoError::StreamAlreadyEnded);
    assert_eq!(writer.flush().unwrap_err(), IoError::StreamAlreadyEnded);
    assert_eq!(writer.close().unwrap_err(), IoError::StreamAlreadyEnded);
}

#[test]
fn abandoned_writer_behaves_like_a_closed_one() {
    let mut writer = LayeredWriter::new(VecSink::new());
    assert_eq!(writer.write(b"ok").unwrap(), 2);
    writer.abandon();
    assert_eq!(writer.write(b"nope").unwrap_err(), IoError::StreamAlreadyEnded);
    assert_eq!(writer.flush().unwrap_err(), IoError::StreamAlreadyEnded);
    assert_eq!(writer.close().unwrap_err(), IoError::StreamAlreadyEnded);
    // A second abandon is a no-op.
    writer.abandon();
}

#[test]
fn close_surfaces_the_flush_error_and_still_ends_the_stream() {
    let sink = ScriptedWriter::with_flush_faults(Vec::new(), 1);
    let mut writer = LayeredWriter::new(sink);
    assert_eq!(writer.close().unwrap_err(), IoError::Other);
    assert_eq!(writer.write(b"x").unwrap_err(), IoError::StreamAlreadyEnded);
}

#[test]
fn write_fault_abandons_the_writer() {
    let sink = ScriptedWriter::new(vec![WriteStep::Fault]);
    let mut writer = LayeredWriter::new(sink);
    assert_eq!(writer.write(b"x").unwrap_err(), IoError::Other);
    assert_eq!(writer.write(b"x").unwrap_err(), IoError::StreamAlreadyEnded);
}

#[test]
fn interrupted_write_leaves_the_writer_open() {
    let sink = ScriptedWriter::new(vec![WriteStep::Interrupt]);
    let mut writer = LayeredWriter::new(sink);
    assert_eq!(writer.write(b"xy").unwrap_err(), IoError::Interrupted);
    assert_eq!(writer.write(b"xy").unwrap(), 2);
    let sink = writer.abandon_into_inner().unwrap();
    assert_eq!(sink.contents().len(), 2);
}

#[test]
fn closed_duplexer_read_reports_end_and_write_fails() {
    let mut duplexer = LayeredDuplexer::new(VecDuplex::new(b"data".to_vec()));
    assert_eq!(duplexer.write(b"out").unwrap(), 3);
    assert_eq!(duplexer.close(), Ok(()));
    let mut buf = vec![0; 4];
    assert_eq!(duplexer.read_with_status(&mut buf).unwrap(), (0, Status::End));
    assert_eq!(duplexer.write(b"more").unwrap_err(), IoError::StreamAlreadyEnded);
    assert_eq!(duplexer.flush().unwrap_err(), IoError::StreamAlreadyEnded);
}

#[test]
fn abandoned_duplexer_reads_end_without_any_flush_error() {
    let mut duplexer = LayeredDuplexer::new(VecDuplex::new(b"data".to_vec()));
    duplexer.abandon();
    let mut buf = vec![0; 4];
    assert_eq!(duplexer.read_with_status(&mut buf).unwrap(), (0, Status::End));
    assert_eq!(duplexer.write(b"more").unwrap_err(), IoError::StreamAlreadyEnded);
}

#[test]
fn round_trip_through_sink_and_source() {
    let payload = b"status-aware round trip".to_vec();
    let mut writer = LayeredWriter::new(VecSink::new());
    layered_io::default_write_all(&mut writer, &payload).unwrap();
    let sink = writer.close_into_inner().unwrap();
    assert_eq!(sink.contents(), &payload);

    let mut reader = LayeredReader::new(VecSource::new(sink.into_inner()));
    let mut collected = Vec::new();
    let n = reader.read_to_end(&mut collected).unwrap();
    assert_eq!(n, payload.len());
    assert_eq!(collected, payload);
}

#[test]
fn reclaiming_the_transport() {
    let mut writer = LayeredWriter::new(VecSink::new());
    assert_eq!(writer.write(b"kept").unwrap(), 4);
    assert_eq!(writer.get_ref().contents(), &b"kept".to_vec());
    writer.get_mut().close().unwrap();
    let sink = writer.abandon_into_inner().unwrap();
    assert_eq!(sink.into_inner(), b"kept".to_vec());

    let reader = LayeredReader::new(VecSource::new(b"untouched".to_vec()));
    let source = reader.abandon_into_inner();
    assert!(source.is_some());

    let duplexer = LayeredDuplexer::new(VecDuplex::new(Vec::new()));
    let transport = duplexer.close_into_inner().unwrap();
    assert_eq!(transport.written(), &Vec::<u8>::new());
}

#[test]
fn flush_with_status_drives_flush_or_close() {
    let mut writer = LayeredWriter::new(VecSink::new());
    assert_eq!(writer.flush_with_status(Status::active()), Ok(()));
    assert_eq!(writer.flush_with_status(Status::push()), Ok(()));
    assert_eq!(writer.write(b"still open").unwrap(), 10);
    assert_eq!(writer.flush_with_status(Status::End), Ok(()));
    assert_eq!(writer.write(b"x").unwrap_err(), IoError::StreamAlreadyEnded);
}

#[test]
fn read_to_string_rejects_invalid_utf8() {
    let mut reader = LayeredReader::new(VecSource::new(vec![0xff, 0xfe]));
    let mut s = String::from("prefix");
    assert_eq!(reader.read_to_string(&mut s).unwrap_err(), IoError::InvalidUtf8);
    assert_eq!(s, "prefix");
}

#[test]
fn slice_reader_abandon_ends_it() {
    let mut reader = SliceReader::new(b"data");
    reader.abandon();
    let mut buf = vec![0; 4];
    assert_eq!(reader.read_with_status(&mut buf).unwrap(), (0, Status::End));
    assert_eq!(buf, vec![0; 4]);
}

#[test]
fn vec_sink_is_closeable() {
    let mut sink = VecSink::new();
    assert!(sink.close().is_ok());
    let mut sink = VecSink::new();
    sink.abandon();
    assert_eq!(sink.suggested_buffer_size(), 0);
}

#[test]
fn suggested_buffer_sizes() {
    assert_eq!(LayeredReader::new(VecSource::new(Vec::new())).suggested_buffer_size(), 0x2000);
    assert_eq!(LayeredWriter::new(VecSink::new()).suggested_buffer_size(), 0x2000);
    assert_eq!(SliceReader::new(b"x").suggested_buffer_size(), 0);
    let reader = SliceReader::new(b"x");
    assert_eq!(reader.minimum_buffer_size(), 0);
    assert_eq!(
        layered_io::default_suggested_buffer_size(&LayeredWriter::new(VecSink::new())),
        0x2000
    );
}

#[test]
fn status_helpers() {
    assert_eq!(Status::active(), Status::Open(Activity::Active));
    assert_eq!(Status::push(), Status::Open(Activity::Push));
    assert!(Status::End.is_end());
    assert!(!Status::active().is_end());
    assert!(Status::push().is_push());
    assert!(!Status::active().is_push());
    assert_eq!(layered_io::stream_already_ended(), IoError::StreamAlreadyEnded);
}

#[test]
fn legacy_read_exact_on_the_reader() {
    let mut reader = LayeredReader::new(VecSource::new(b"abcdef".to_vec()));
    let mut buf = vec![0; 4];
    assert_eq!(reader.read_exact(&mut buf), Ok(()));
    assert_eq!(buf, b"abcd");
    let mut rest = vec![0; 4];
    assert_eq!(reader.read_exact(&mut rest).unwrap_err(), IoError::UnexpectedEof);
    assert_eq!(rest, vec![0; 4]);
}

#[test]
fn legacy_read_vectored_on_the_duplexer() {
    let mut duplexer = LayeredDuplexer::new(VecDuplex::new(b"abcd".to_vec()));
    let mut bufs = vec![Vec::new(), vec![0; 3]];
    assert_eq!(duplexer.read_vectored(&mut bufs), Ok(3));
    assert_eq!(bufs[1], b"abc");
}

#[test]
fn slice_reader_exact_read_succeeds_exactly_when_enough_remains() {
    let mut reader = SliceReader::new(b"abcde");
    let mut buf = vec![0; 3];
    assert_eq!(reader.read_exact(&mut buf), Ok(()));
    assert_eq!(buf, b"abc");
    let mut too_much = vec![0; 3];
    assert_eq!(reader.read_exact(&mut too_much).unwrap_err(), IoError::UnexpectedEof);
    assert_eq!(too_much, vec![0; 3]);
    let mut rest = vec![0; 2];
    assert_eq!(reader.read_exact(&mut rest), Ok(()));
    assert_eq!(rest, b"de");
}

#[test]
fn slice_reader_read_to_end_takes_the_rest() {
    let mut reader = SliceReader::new(b"one two");
    let mut buf = vec![0; 4];
    assert_eq!(reader.read(&mut buf).unwrap(), 4);
    let mut collected = Vec::new();
    assert_eq!(reader.read_to_end(&mut collected).unwrap(), 3);
    assert_eq!(collected, b"two");
    assert_eq!(reader.read_to_end(&mut collected).unwrap(), 0);
}

#[test]
fn ended_duplexer_legacy_reads_report_zero_not_errors() {
    let mut duplexer = LayeredDuplexer::new(VecDuplex::new(b"gone".to_vec()));
    duplexer.abandon();
    let mut buf = vec![0; 4];
    assert_eq!(duplexer.read(&mut buf), Ok(0));
    let mut collected = Vec::new();
    assert_eq!(duplexer.read_to_end(&mut collected), Ok(0));
    assert_eq!(collected, b"");
    let mut bufs = vec![vec![0; 4]];
    assert_eq!(duplexer.read_vectored(&mut bufs), Ok(0));
    assert_eq!(duplexer.read_exact(&mut buf).unwrap_err(), IoError::UnexpectedEof);
    let mut empty = Vec::new();
    assert_eq!(duplexer.read_exact(&mut empty), Ok(()));
}

#[test]
fn vectored_read_keeps_the_line_mode_law() {
    let steps = vec![ReadStep::Chunk(b"ab\n".to_vec()), ReadStep::Chunk(b"cd".to_vec())];
    let mut reader = LayeredReader::line_by_line(ScriptedReader::new(steps));
    let mut bufs = vec![Vec::new(), vec![0; 5]];
    assert_eq!(reader.read_vectored_with_status(&mut bufs).unwrap(), (3, Status::push()));
    assert_eq!(&bufs[1][..3], b"ab\n");
    assert_eq!(reader.read_vectored_with_status(&mut bufs).unwrap(), (2, Status::active()));
    assert_eq!(&bufs[1][..2], b"cd");
}

#[test]
fn vectored_read_keeps_the_eos_as_push_law() {
    let steps = vec![ReadStep::Eos, ReadStep::Chunk(b"x".to_vec())];
    let mut reader = LayeredReader::with_eos_as_push(ScriptedReader::new(steps));
    let mut bufs = vec![vec![0; 2]];
    assert_eq!(reader.read_vectored_with_status(&mut bufs).unwrap(), (0, Status::push()));
    // The stream stayed open: later data still arrives.
    assert_eq!(reader.read_vectored_with_status(&mut bufs).unwrap(), (1, Status::active()));
    assert_eq!(&bufs[0][..1], b"x");
}
