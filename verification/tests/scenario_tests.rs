use log_watcher::watcher::{DetachedLogWatcher, TailEvent};
use log_watcher::LogReaderMode;

/// A record like a writer would append: an index, a dash, 89 filler
/// characters, and a newline.
fn record(idx: usize) -> Vec<u8> {
    let mut filler = String::new();
    for k in 0..89 {
        let c = (b' ' + (((idx * 31 + k * 7) % 94) as u8)) as char;
        filler.push(c);
    }
    format!("{}-{}\n", idx, filler).into_bytes()
}

fn split_records(bytes: &[u8]) -> Vec<Vec<u8>> {
    let mut out = Vec::new();
    let mut cur = Vec::new();
    for &b in bytes {
        cur.push(b);
        if b == b'\n' {
            out.push(std::mem::take(&mut cur));
        }
    }
    if !cur.is_empty() {
        out.push(cur);
    }
    out
}

/// Feed one written record to the watcher as a poll and collect what it
/// emits.
fn feed(w: DetachedLogWatcher, data: Vec<u8>, sink: &mut Vec<u8>) -> DetachedLogWatcher {
    let (w, eff) = w.next(TailEvent::Polled { input: data, token: None });
    for c in eff.emit {
        sink.extend_from_slice(&c);
    }
    w
}

#[test]
fn five_hundred_records_come_back_in_order_drain_mode() {
    let mut w =
        DetachedLogWatcher::start(String::from("t.log"), LogReaderMode::ReadToEnd, false, Some(1));
    let mut written: Vec<Vec<u8>> = Vec::new();
    let mut emitted: Vec<u8> = Vec::new();
    for i in 1..=500 {
        let line = record(i);
        written.push(line.clone());
        w = feed(w, line, &mut emitted);
    }
    for c in w.close() {
        emitted.extend_from_slice(&c);
    }
    let read = split_records(&emitted);
    assert_eq!(read.len(), 500);
    for i in 0..500 {
        assert_eq!(read[i], written[i]);
    }
}

#[test]
fn five_hundred_records_come_back_in_order_line_mode() {
    let mut w =
        DetachedLogWatcher::start(String::from("t.log"), LogReaderMode::NextLine, false, Some(1));
    let mut written: Vec<Vec<u8>> = Vec::new();
    let mut emitted: Vec<u8> = Vec::new();
    // polls do not line up with record boundaries: feed two records per poll,
    // split at an offset
    let mut carry: Vec<u8> = Vec::new();
    for i in 1..=500 {
        let line = record(i);
        written.push(line.clone());
        let mut poll = std::mem::take(&mut carry);
        poll.extend_from_slice(&line);
        let cut = poll.len() / 2;
        carry = poll.split_off(cut);
        w = feed(w, poll, &mut emitted);
    }
    w = feed(w, carry, &mut emitted);
    for c in w.close() {
        emitted.extend_from_slice(&c);
    }
    let read = split_records(&emitted);
    assert_eq!(read.len(), 500);
    for i in 0..500 {
        assert_eq!(read[i], written[i]);
    }
}

#[test]
fn rotation_keeps_rounds_ordered_and_separate() {
    let mut w =
        DetachedLogWatcher::start(String::from("r.log"), LogReaderMode::ReadToEnd, false, Some(1));
    let mut first_round: Vec<u8> = Vec::new();
    let mut second_round: Vec<u8> = Vec::new();
    let mut written_first: Vec<Vec<u8>> = Vec::new();
    let mut written_second: Vec<Vec<u8>> = Vec::new();

    for i in 1..=200 {
        let line = record(i);
        written_first.push(line.clone());
        w = feed(w, line, &mut first_round);
    }

    // the file is deleted and recreated: an idle poll sees a newer token
    let (w2, eff) = w.next(TailEvent::Polled { input: Vec::new(), token: Some(2) });
    assert!(eff.emit.is_empty());
    assert!(matches!(w2, DetachedLogWatcher::Missing(_)));
    let (w2, eff) = w2.next(TailEvent::Tick);
    for c in eff.emit {
        first_round.extend_from_slice(&c);
    }
    assert!(matches!(w2, DetachedLogWatcher::Reloading(_, _)));
    let (mut w2, eff) = w2.next(TailEvent::Opened { token: 2 });
    assert!(eff.emit.is_empty());

    for i in 1..=150 {
        let line = record(1000 + i);
        written_second.push(line.clone());
        w2 = feed(w2, line, &mut second_round);
    }
    for c in w2.close() {
        second_round.extend_from_slice(&c);
    }

    let read_first = split_records(&first_round);
    let read_second = split_records(&second_round);
    assert_eq!(read_first.len(), 200);
    assert_eq!(read_second.len(), 150);
    for i in 0..200 {
        assert_eq!(read_first[i], written_first[i]);
    }
    for i in 0..150 {
        assert_eq!(read_second[i], written_second[i]);
    }
}

#[test]
fn no_chunk_between_polls_without_growth() {
    let mut w =
        DetachedLogWatcher::start(String::from("q.log"), LogReaderMode::ReadToEnd, false, Some(3));
    let mut emitted: Vec<u8> = Vec::new();
    w = feed(w, b"steady state\n".to_vec(), &mut emitted);
    let before = emitted.len();
    // many quiet polls with the token unchanged
    for _ in 0..10 {
        let (w2, eff) = w.next(TailEvent::Polled { input: Vec::new(), token: Some(3) });
        assert!(eff.emit.is_empty());
        w = w2;
    }
    assert_eq!(emitted.len(), before);
    assert!(matches!(w, DetachedLogWatcher::Waiting(_)));
}
