use log_watcher::reader::{LogBufReader, LINE_FLUSH_CAP};
use log_watcher::LogReaderMode;

fn drain_reader() -> LogBufReader {
    LogBufReader::new(String::from("log.txt"), LogReaderMode::ReadToEnd, 1)
}

fn line_reader() -> LogBufReader {
    LogBufReader::new(String::from("log.txt"), LogReaderMode::NextLine, 1)
}

#[test]
fn drain_mode_emits_whole_poll_as_one_chunk() {
    let mut r = drain_reader();
    let chunks = r.read_next(b"hello world\nsecond");
    assert_eq!(chunks.len(), 1);
    assert_eq!(chunks[0], b"hello world\nsecond".to_vec());
    assert!(r.pending.is_empty());
}

#[test]
fn drain_mode_empty_poll_emits_nothing() {
    let mut r = drain_reader();
    let chunks = r.read_next(b"");
    assert!(chunks.is_empty());
    assert!(r.pending.is_empty());
}

#[test]
fn line_mode_emits_one_chunk_per_line() {
    let mut r = line_reader();
    let chunks = r.read_next(b"one\ntwo\nthree");
    assert_eq!(chunks.len(), 2);
    assert_eq!(chunks[0], b"one\n".to_vec());
    assert_eq!(chunks[1], b"two\n".to_vec());
    assert_eq!(r.pending, b"three".to_vec());
}

#[test]
fn line_mode_joins_a_line_across_polls() {
    let mut r = line_reader();
    let chunks = r.read_next(b"par");
    assert!(chunks.is_empty());
    assert_eq!(r.pending, b"par".to_vec());
    let chunks = r.read_next(b"tial\nrest");
    assert_eq!(chunks.len(), 1);
    assert_eq!(chunks[0], b"partial\n".to_vec());
    assert_eq!(r.pending, b"rest".to_vec());
}

#[test]
fn line_mode_empty_poll_keeps_pending_untouched() {
    let mut r = line_reader();
    r.read_next(b"unfinished");
    let chunks = r.read_next(b"");
    assert!(chunks.is_empty());
    assert_eq!(r.pending, b"unfinished".to_vec());
}

#[test]
fn line_mode_caps_an_unterminated_line() {
    let mut r = line_reader();
    let input: Vec<u8> = std::iter::repeat(b'x').take(LINE_FLUSH_CAP + 4000).collect();
    let chunks = r.read_next(&input);
    assert_eq!(chunks.len(), 1);
    assert_eq!(chunks[0].len(), LINE_FLUSH_CAP);
    assert_eq!(r.pending.len(), 4000);
    // reassembly is byte-identical
    let mut rebuilt: Vec<u8> = Vec::new();
    for c in &chunks {
        rebuilt.extend_from_slice(c);
    }
    rebuilt.extend_from_slice(&r.pending);
    assert_eq!(rebuilt, input);
}

#[test]
fn line_mode_cap_boundary_is_exact() {
    let mut r = line_reader();
    let just_under: Vec<u8> = std::iter::repeat(b'y').take(LINE_FLUSH_CAP - 1).collect();
    let chunks = r.read_next(&just_under);
    assert!(chunks.is_empty());
    assert_eq!(r.pending.len(), LINE_FLUSH_CAP - 1);
    let chunks = r.read_next(b"z");
    assert_eq!(chunks.len(), 1);
    assert_eq!(chunks[0].len(), LINE_FLUSH_CAP);
    assert!(r.pending.is_empty());
}

#[test]
fn ordering_holds_across_many_polls() {
    let mut r = line_reader();
    let polls: Vec<Vec<u8>> = vec![
        b"alpha\nbe".to_vec(),
        b"ta\n".to_vec(),
        b"".to_vec(),
        b"gamma".to_vec(),
        b"\ndelta\n".to_vec(),
    ];
    let mut written: Vec<u8> = Vec::new();
    let mut emitted: Vec<u8> = Vec::new();
    for p in &polls {
        written.extend_from_slice(p);
        for c in r.read_next(p) {
            emitted.extend_from_slice(&c);
        }
    }
    emitted.extend_from_slice(&r.pending);
    assert_eq!(emitted, written);
}
