use tracing_android::android::{
    AndroidWriter, CappedTag, LogcatWriter, Priority, Severity, LOGGING_MSG_MAX_LEN,
    LOGGING_TAG_MAX_LEN,
};
use tracing_android::bytes::{append, bytes_eq, find_nul};
use tracing_android::error::Error;

fn tag() -> CappedTag {
    CappedTag::new(b"test").expect("a tag")
}

fn line(len: usize) -> Vec<u8> {
    (0..len).map(|i| b'a' + (i % 26) as u8).collect()
}

fn lines_of_one_write(data: &[u8]) -> Vec<Vec<u8>> {
    let tag = tag();
    let mut writer = AndroidWriter::new(&Severity::Info, &tag);
    writer.write_all(data);
    writer.finish().lines
}

#[test]
fn the_limits_are_those_of_logcat() {
    assert_eq!(LOGGING_TAG_MAX_LEN, 23);
    assert_eq!(LOGGING_MSG_MAX_LEN, 4000);
}

#[test]
fn nothing_written_emits_nothing() {
    let tag = tag();
    let mut writer = AndroidWriter::new(&Severity::Info, &tag);
    writer.flush();
    assert!(writer.emitted().is_empty());
    assert!(writer.buffered().is_empty());
    assert!(lines_of_one_write(b"").is_empty());
}

#[test]
fn a_short_line_waits_for_the_flush() {
    let tag = tag();
    let mut writer = AndroidWriter::new(&Severity::Info, &tag);
    assert_eq!(writer.write(b"hello"), 5);
    assert_eq!(writer.buffered(), b"hello");
    assert!(writer.emitted().is_empty());
    writer.flush();
    assert!(writer.buffered().is_empty());
    assert_eq!(writer.emitted(), &vec![b"hello".to_vec()]);
    writer.flush();
    assert_eq!(writer.emitted(), &vec![b"hello".to_vec()]);
}

#[test]
fn the_writer_logs_under_the_priority_of_its_severity() {
    let tag = tag();
    let mut writer = AndroidWriter::new(&Severity::Trace, &tag);
    writer.write_all(b"x");
    let out = writer.finish();
    assert_eq!(out.tag.as_bytes(), b"test");
    assert_eq!(out.priority, Priority::Verbose);
    assert_eq!(out.lines, vec![b"x".to_vec()]);
}

#[test]
fn a_line_of_3999_bytes_is_one_chunk() {
    assert_eq!(lines_of_one_write(&line(3999)), vec![line(3999)]);
}

#[test]
fn a_line_of_4000_bytes_is_one_chunk_and_skips_the_buffer() {
    let tag = tag();
    let data = line(4000);
    let mut writer = AndroidWriter::new(&Severity::Info, &tag);
    assert_eq!(writer.write(&data), 4000);
    assert!(writer.buffered().is_empty());
    assert_eq!(writer.emitted(), &vec![data.clone()]);
    assert_eq!(writer.finish().lines, vec![data]);
}

#[test]
fn a_line_of_4001_bytes_is_two_chunks() {
    let data = line(4001);
    let out = lines_of_one_write(&data);
    assert_eq!(out, vec![data[..4000].to_vec(), data[4000..].to_vec()]);
}

#[test]
fn a_line_of_10000_bytes_is_three_chunks() {
    let data = line(10000);
    let out = lines_of_one_write(&data);
    assert_eq!(
        out,
        vec![data[..4000].to_vec(), data[4000..8000].to_vec(), data[8000..].to_vec()]
    );
}

#[test]
fn a_line_splits_into_its_length_over_4000_rounded_up() {
    for len in [0usize, 1, 3999, 4000, 4001, 7999, 8000, 8001, 12000, 12345] {
        let data = line(len);
        let out = lines_of_one_write(&data);
        assert_eq!(out.len(), (len + 3999) / 4000);
        assert!(out.iter().all(|chunk| !chunk.is_empty() && chunk.len() <= 4000));
        assert_eq!(out.concat(), data);
    }
}

#[test]
fn one_write_takes_4000_bytes_at_most() {
    let tag = tag();
    let data = line(9000);
    let mut writer = AndroidWriter::new(&Severity::Info, &tag);
    assert_eq!(writer.write(&data), 4000);
    assert_eq!(writer.write(&data[4000..]), 4000);
    assert_eq!(writer.write(&data[8000..]), 1000);
    assert_eq!(writer.write(b""), 0);
    assert_eq!(writer.buffered(), &data[8000..]);
    assert_eq!(writer.emitted().len(), 2);
}

#[test]
fn a_write_that_fits_joins_the_buffer() {
    let tag = tag();
    let mut writer = AndroidWriter::new(&Severity::Info, &tag);
    writer.write_all(&line(3000));
    writer.write_all(&line(1000));
    assert_eq!(writer.buffered().len(), 4000);
    assert!(writer.emitted().is_empty());
    writer.write_all(b"");
    assert_eq!(writer.buffered().len(), 4000);
    writer.write_all(b"x");
    assert_eq!(writer.buffered(), b"x");
    assert_eq!(writer.emitted().len(), 1);
    assert_eq!(writer.emitted()[0].len(), 4000);
}

#[test]
fn a_write_that_does_not_fit_sends_the_buffer_ahead() {
    let tag = tag();
    let mut writer = AndroidWriter::new(&Severity::Info, &tag);
    for _ in 0..4 {
        writer.write_all(&line(2500));
    }
    let out = writer.finish().lines;
    assert_eq!(out, vec![line(2500), line(2500), line(2500), line(2500)]);
}

#[test]
fn a_long_write_behind_a_short_one_sends_both() {
    let tag = tag();
    let mut writer = AndroidWriter::new(&Severity::Info, &tag);
    writer.write_all(b"head: ");
    writer.write_all(&line(4500));
    let out = writer.finish().lines;
    assert_eq!(out, vec![b"head: ".to_vec(), line(4000), line(4500)[4000..].to_vec()]);
}

#[test]
fn many_writes_lose_nothing() {
    let tag = tag();
    let mut writer = AndroidWriter::new(&Severity::Info, &tag);
    let mut all = Vec::new();
    for len in [1usize, 3998, 2, 4000, 17, 8123, 0, 3999, 1] {
        let data = line(len);
        writer.write_all(&data);
        all.extend_from_slice(&data);
    }
    let out = writer.finish().lines;
    assert!(out.iter().all(|chunk| !chunk.is_empty() && chunk.len() <= 4000));
    assert!(out.len() >= (all.len() + 3999) / 4000);
    assert_eq!(out.concat(), all);
}

#[test]
fn a_chunk_with_a_zero_byte_is_dropped_and_the_rest_goes_on() {
    let tag = tag();
    let mut writer = AndroidWriter::new(&Severity::Info, &tag);
    writer.write_all(b"bad\0chunk");
    writer.flush();
    assert!(writer.emitted().is_empty());
    assert!(writer.buffered().is_empty());
    writer.write_all(b"good");
    writer.flush();
    assert_eq!(writer.emitted(), &vec![b"good".to_vec()]);
}

#[test]
fn only_the_chunk_with_the_zero_byte_is_lost() {
    let mut data = line(12000);
    data[5000] = 0;
    let out = lines_of_one_write(&data);
    assert_eq!(out, vec![data[..4000].to_vec(), data[8000..].to_vec()]);
}

#[test]
fn the_emitter_caps_a_write_at_4000_bytes() {
    let tag = tag();
    let mut emitter = LogcatWriter::new(Priority::Warn, &tag);
    let data = line(5000);
    assert_eq!(emitter.write(&data), Ok(4000));
    assert_eq!(emitter.write(b"rest"), Ok(4));
    assert_eq!(emitter.flush(), Ok(()));
    assert_eq!(emitter.emitted(), &vec![data[..4000].to_vec(), b"rest".to_vec()]);
}

#[test]
fn the_emitter_refuses_a_zero_byte() {
    let tag = tag();
    let mut emitter = LogcatWriter::new(Priority::Warn, &tag);
    assert_eq!(emitter.write(b"ab\0cd"), Err(Error::ChunkEncoding(2)));
    assert!(emitter.emitted().is_empty());
    assert_eq!(emitter.write(b"ok"), Ok(2));
    assert_eq!(emitter.emitted(), &vec![b"ok".to_vec()]);
}

#[test]
fn the_emitter_looks_for_a_zero_byte_only_in_what_it_takes() {
    let tag = tag();
    let mut emitter = LogcatWriter::new(Priority::Warn, &tag);
    let mut data = line(4001);
    data[4000] = 0;
    assert_eq!(emitter.write(&data), Ok(4000));
    data[3999] = 0;
    assert_eq!(emitter.write(&data), Err(Error::ChunkEncoding(3999)));
    assert_eq!(emitter.emitted().len(), 1);
}

#[test]
fn find_nul_finds_the_first_zero_byte() {
    assert_eq!(find_nul(b""), None);
    assert_eq!(find_nul(b"abc"), None);
    assert_eq!(find_nul(b"\0"), Some(0));
    assert_eq!(find_nul(b"ab\0c\0"), Some(2));
}

#[test]
fn bytes_eq_compares_every_byte() {
    assert!(bytes_eq(b"", b""));
    assert!(bytes_eq(b"message", b"message"));
    assert!(!bytes_eq(b"message", b"messagE"));
    assert!(!bytes_eq(b"message", b"messages"));
    assert!(!bytes_eq(b"", b"m"));
}

#[test]
fn append_adds_at_the_end() {
    let mut buf = b"ab".to_vec();
    append(&mut buf, b"cd");
    append(&mut buf, b"");
    assert_eq!(buf, b"abcd".to_vec());
}
