use layered_io::{
    default_is_read_vectored, default_is_write_vectored, default_poll_read,
    default_poll_write_vectored, default_read, default_read_exact_using_status,
    default_read_to_end, default_read_to_string, default_read_vectored,
    default_read_vectored_with_status, default_write_all, default_write_all_vectored,
    default_write_vectored, to_std_io_read_result, AsyncReadLayered, AsyncWriteLayered, IoError,
    LayeredReader, LayeredWriter, ReadLayered, ReadStep, Readiness, ScriptedReader, SliceReader,
    Status, VecSink, VecSource, WriteLayered,
};

#[test]
fn legacy_translation_cases() {
    assert_eq!(to_std_io_read_result((0, Status::active())), Err(IoError::Interrupted));
    assert_eq!(to_std_io_read_result((0, Status::push())), Err(IoError::Interrupted));
    assert_eq!(to_std_io_read_result((0, Status::End)), Ok(0));
    assert_eq!(to_std_io_read_result((7, Status::active())), Ok(7));
    assert_eq!(to_std_io_read_result((7, Status::End)), Ok(7));
}

#[test]
fn legacy_read_hides_push_and_signals_retry() {
    let steps = vec![ReadStep::Interrupt, ReadStep::Chunk(b"ab".to_vec())];
    let mut reader = LayeredReader::new(ScriptedReader::new(steps));
    let mut buf = vec![0; 4];
    assert_eq!(default_read(&mut reader, &mut buf), Err(IoError::Interrupted));
    assert_eq!(default_read(&mut reader, &mut buf), Ok(2));
    assert_eq!(&buf[..2], b"ab");
    assert_eq!(default_read(&mut reader, &mut buf), Ok(0));
}

#[test]
fn read_exact_with_shorter_destination_succeeds() {
    let mut reader = SliceReader::new(b"hello");
    let mut buf = vec![0; 3];
    assert_eq!(default_read_exact_using_status(&mut reader, &mut buf), Ok(Status::active()));
    assert_eq!(buf, b"hel");
}

#[test]
fn read_exact_that_consumes_everything_reports_end() {
    let mut reader = SliceReader::new(b"hello");
    let mut buf = vec![0; 5];
    assert_eq!(reader.read_exact_using_status(&mut buf), Ok(Status::End));
    assert_eq!(buf, b"hello");
}

#[test]
fn read_exact_past_the_end_fails_without_partial_success() {
    let mut reader = SliceReader::new(b"hello");
    let mut buf = vec![0; 7];
    assert_eq!(
        default_read_exact_using_status(&mut reader, &mut buf),
        Err(IoError::UnexpectedEof)
    );
    // The destination is untouched: no partial silent success.
    assert_eq!(buf, vec![0; 7]);
}

#[test]
fn read_exact_assembles_several_chunks() {
    let steps = vec![
        ReadStep::Chunk(b"ab".to_vec()),
        ReadStep::Interrupt,
        ReadStep::Chunk(b"cd".to_vec()),
        ReadStep::Chunk(b"ef".to_vec()),
    ];
    let mut reader = LayeredReader::new(ScriptedReader::new(steps));
    let mut buf = vec![0; 6];
    assert_eq!(default_read_exact_using_status(&mut reader, &mut buf), Ok(Status::active()));
    assert_eq!(buf, b"abcdef");
}

#[test]
fn read_to_end_counts_what_it_appends() {
    let mut reader = LayeredReader::new(VecSource::new(b"all of it".to_vec()));
    let mut collected = b"seed:".to_vec();
    let n = default_read_to_end(&mut reader, &mut collected).unwrap();
    assert_eq!(n, 9);
    assert_eq!(collected, b"seed:all of it");
}

#[test]
fn read_to_string_appends_decoded_text() {
    let mut reader = LayeredReader::new(VecSource::new("déjà vu".as_bytes().to_vec()));
    let mut s = String::from("seen: ");
    let n = default_read_to_string(&mut reader, &mut s).unwrap();
    assert_eq!(n, "déjà vu".len());
    assert_eq!(s, "seen: déjà vu");
}

#[test]
fn vectored_read_fills_the_first_nonempty_buffer() {
    let mut reader = SliceReader::new(b"abcdef");
    let mut bufs = vec![Vec::new(), vec![0; 4], vec![0; 4]];
    assert_eq!(
        default_read_vectored_with_status(&mut reader, &mut bufs),
        Ok((4, Status::active()))
    );
    assert_eq!(bufs[1], b"abcd");
    assert_eq!(bufs[2], vec![0; 4]);
    assert_eq!(default_read_vectored(&mut reader, &mut bufs), Ok(2));
    assert_eq!(&bufs[1][..2], b"ef");
}

#[test]
fn vectored_read_with_no_buffers_probes_the_stream() {
    let mut reader = SliceReader::new(b"");
    let mut bufs: Vec<Vec<u8>> = Vec::new();
    assert_eq!(default_read_vectored_with_status(&mut reader, &mut bufs), Ok((0, Status::End)));
    assert!(!default_is_read_vectored(&reader));
}

#[test]
fn write_all_respects_a_per_call_cap() {
    let mut writer = LayeredWriter::new(VecSink::with_max_write(4));
    let payload = vec![7u8; 12];
    assert_eq!(default_write_all(&mut writer, &payload), Ok(()));
    let sink = writer.close_into_inner().unwrap();
    // Twelve bytes at four per call take at least three transport writes.
    assert!(sink.write_calls() >= 3);
    assert_eq!(sink.into_inner(), payload);
}

#[test]
fn write_all_turns_a_zero_write_into_an_error() {
    let mut writer = LayeredWriter::new(VecSink::with_max_write(0));
    assert_eq!(default_write_all(&mut writer, b"x"), Err(IoError::WriteZero));
}

#[test]
fn vectored_write_picks_the_first_nonempty_buffer() {
    let mut writer = LayeredWriter::new(VecSink::new());
    let bufs = vec![Vec::new(), b"abc".to_vec(), b"zzz".to_vec()];
    assert_eq!(default_write_vectored(&mut writer, &bufs), Ok(3));
    let sink = writer.abandon_into_inner().unwrap();
    assert_eq!(sink.contents(), &b"abc".to_vec());
}

#[test]
fn write_all_vectored_consumes_every_buffer() {
    let mut writer = LayeredWriter::new(VecSink::with_max_write(2));
    let mut bufs = vec![b"abc".to_vec(), Vec::new(), b"defg".to_vec()];
    assert_eq!(default_write_all_vectored(&mut writer, &mut bufs), Ok(()));
    let total: usize = bufs.iter().map(|b| b.len()).sum();
    assert_eq!(total, 0);
    let sink = writer.abandon_into_inner().unwrap();
    assert!(sink.write_calls() >= 4);
    assert_eq!(sink.into_inner(), b"abcdefg".to_vec());
    assert!(!default_is_write_vectored(&LayeredWriter::new(VecSink::new())));
}

#[test]
fn poll_mirror_of_a_blocking_reader_is_always_ready() {
    let mut reader = LayeredReader::new(VecSource::new(b"poll me".to_vec()));
    let mut buf = vec![0; 16];
    assert_eq!(
        reader.poll_read_with_status(&mut buf),
        Readiness::Ready(Ok((7, Status::active())))
    );
    assert_eq!(&buf[..7], b"poll me");
    assert_eq!(default_poll_read(&mut reader, &mut buf), Readiness::Ready(Ok(0)));
    assert_eq!(ReadLayered::minimum_buffer_size(&reader), 0);
}

#[test]
fn poll_mirror_of_a_blocking_writer_flushes_and_closes() {
    let mut writer = LayeredWriter::new(VecSink::new());
    let bufs = vec![b"hi".to_vec()];
    assert_eq!(default_poll_write_vectored(&mut writer, &bufs), Readiness::Ready(Ok(2)));
    assert_eq!(writer.poll_flush(), Readiness::Ready(Ok(())));
    assert_eq!(
        AsyncWriteLayered::flush_with_status(&mut writer, Status::active()),
        Readiness::Ready(Ok(()))
    );
    assert_eq!(
        AsyncWriteLayered::flush_with_status(&mut writer, Status::End),
        Readiness::Ready(Ok(()))
    );
    assert_eq!(
        writer.poll_write(b"late"),
        Readiness::Ready(Err(IoError::StreamAlreadyEnded))
    );
}

#[test]
fn a_stalled_stream_surfaces_the_retry_signal() {
    // A stream that keeps reporting open zero-byte reads exhausts the
    // stall budget, and the call comes back with the retry signal
    // instead of spinning; the stream itself stays open.
    let steps: Vec<ReadStep> = (0..2 * layered_io::STALL_LIMIT).map(|_| ReadStep::Interrupt).collect();
    let mut reader = LayeredReader::new(ScriptedReader::new(steps));
    let mut buf = vec![0; 4];
    assert_eq!(
        default_read_exact_using_status(&mut reader, &mut buf),
        Err(IoError::Interrupted)
    );
    assert_eq!(buf, vec![0; 4]);

    let steps: Vec<ReadStep> = (0..2 * layered_io::STALL_LIMIT).map(|_| ReadStep::Interrupt).collect();
    let mut reader = LayeredReader::new(ScriptedReader::new(steps));
    let mut collected = Vec::new();
    assert_eq!(default_read_to_end(&mut reader, &mut collected), Err(IoError::Interrupted));
    assert_eq!(collected, b"");
}

#[test]
fn empty_writes_succeed_even_on_an_ended_stream() {
    let mut writer = LayeredWriter::new(VecSink::new());
    writer.close().unwrap();
    assert_eq!(default_write_all(&mut writer, b""), Ok(()));
    let mut no_bufs: Vec<Vec<u8>> = Vec::new();
    assert_eq!(default_write_all_vectored(&mut writer, &mut no_bufs), Ok(()));
    // Anything more fails with the fixed lifecycle error.
    assert_eq!(default_write_all(&mut writer, b"x"), Err(IoError::StreamAlreadyEnded));
}

#[test]
fn empty_destination_read_exact_is_a_no_op_success() {
    let mut reader = SliceReader::new(b"");
    let mut empty = Vec::new();
    assert_eq!(default_read_exact_using_status(&mut reader, &mut empty), Ok(Status::active()));
}
