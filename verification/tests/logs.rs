use bytes::Bytes;
use containerd_manager::error::{IoError, IoKind};
use containerd_manager::logs::{
    after_poll, after_wait, container_logs, container_logs_filtered, drain_rotated_remainder,
    events_files_oldest_first, events_path_for, file_read_failed, log_dir_for, log_paths_for,
    poll_failed, rotated_candidates, rotated_drain, rotated_open_failed, EventsTailState,
    FollowPhase, PollIo, PollOutcome, PollStep, MAX_ROTATED_FILES, ROTATED_DRAIN_MAX_BYTES,
};
use containerd_manager::records::{
    decode_event_with_len, encode_event, encode_record_into, parse_events_file, resync_offset,
    Decoded, MAX_RECORD_BYTES,
};
use containerd_manager::time::SystemTime;
use containerd_manager::{Error, LogEntry, LogStream, LogsFilter};

fn entry(stream: LogStream, ms: u64, data: &[u8]) -> LogEntry {
    LogEntry {
        stream,
        timestamp: SystemTime::from_unix_millis(ms),
        data: Bytes::copy_from_slice(data),
    }
}

fn decode_one(buf: &[u8]) -> (LogEntry, usize) {
    match decode_event_with_len(&Bytes::copy_from_slice(buf)) {
        Decoded::Record { entry, consumed } => (entry, consumed),
        Decoded::NeedMore => panic!("expected complete record, got NeedMore"),
        Decoded::Malformed => panic!("expected complete record, got Malformed"),
    }
}

#[test]
fn encode_decode_roundtrip_with_trailing_newline() {
    let e = entry(LogStream::Stdout, 1_700_000_000_000, b"hello\n");
    let encoded = encode_event(&e);
    let (decoded, n) = decode_one(&encoded);
    assert_eq!(n, encoded.len());
    assert_eq!(decoded.stream, LogStream::Stdout);
    assert_eq!(decoded.timestamp, e.timestamp);
    assert_eq!(decoded.data.as_ref(), b"hello\n");
}

#[test]
fn encode_decode_roundtrip_no_trailing_newline() {
    let e = entry(LogStream::Stderr, 42, b"partial");
    let encoded = encode_event(&e);
    let (decoded, _) = decode_one(&encoded);
    assert_eq!(decoded.data.as_ref(), b"partial");
}

#[test]
fn encode_decode_roundtrip_embedded_newlines_and_binary() {
    let e = entry(LogStream::Stdout, 1, b"line1\nline2\n\x00\xff");
    let encoded = encode_event(&e);
    let (decoded, _) = decode_one(&encoded);
    assert_eq!(decoded.data.as_ref(), b"line1\nline2\n\x00\xff");
}

#[test]
fn a_record_is_written_as_documented() {
    assert_eq!(
        encode_event(&entry(LogStream::Stderr, 42, b"hi\n")),
        b"42 e 3 hi\n\n".to_vec()
    );
    let mut buf = b"before".to_vec();
    encode_record_into(&mut buf, SystemTime::from_unix_millis(7), LogStream::Stdout, b"");
    assert_eq!(buf, b"before7 o 0 \n".to_vec());
    // A time before the epoch is written as 0, and one beyond 64 bits of
    // milliseconds as the largest number.
    let mut early = Vec::new();
    encode_record_into(&mut early, SystemTime { nanos: -5 }, LogStream::Stdout, b"x");
    assert_eq!(early, b"0 o 1 x\n".to_vec());
    let mut late = Vec::new();
    encode_record_into(&mut late, SystemTime { nanos: i128::MAX }, LogStream::Stdout, b"x");
    assert_eq!(late, b"18446744073709551615 o 1 x\n".to_vec());
}

#[test]
fn decode_rejects_oversize_length_prefix() {
    // An outrageous length field is malformed, not a reason to wait for more.
    let mut buf = b"1 o ".to_vec();
    buf.extend_from_slice((MAX_RECORD_BYTES + 1).to_string().as_bytes());
    buf.extend_from_slice(b" payload\n");
    match decode_event_with_len(&Bytes::copy_from_slice(&buf)) {
        Decoded::Malformed => {}
        Decoded::Record { .. } => panic!("expected Malformed, got Record"),
        Decoded::NeedMore => panic!("expected Malformed, got NeedMore"),
    }
}

#[test]
fn decode_classifies_bad_stream_char_as_malformed() {
    let buf = b"1 x 5 hello\n";
    assert!(matches!(
        decode_event_with_len(&Bytes::copy_from_slice(buf)),
        Decoded::Malformed
    ));
}

#[test]
fn decode_waits_or_rejects_by_what_is_there() {
    let decode = |s: &[u8]| decode_event_with_len(&Bytes::copy_from_slice(s));
    assert!(matches!(decode(b""), Decoded::NeedMore));
    assert!(matches!(decode(b"garbage"), Decoded::NeedMore));
    assert!(matches!(decode(b"12"), Decoded::NeedMore));
    assert!(matches!(decode(b"12 "), Decoded::NeedMore));
    assert!(matches!(decode(b"12 o"), Decoded::NeedMore));
    assert!(matches!(decode(b"12 o "), Decoded::NeedMore));
    assert!(matches!(decode(b"12 o 3 ab"), Decoded::NeedMore));
    assert!(matches!(decode(b"12 o 3 abc"), Decoded::NeedMore));
    assert!(matches!(decode(b"12 o 3 abc\n"), Decoded::Record { .. }));
    assert!(matches!(decode(b"+12 o +3 abc\n"), Decoded::Record { .. }));
    assert!(matches!(decode(b"12 o 3 abcd"), Decoded::Malformed));
    assert!(matches!(decode(b"x o 3 abc\n"), Decoded::Malformed));
    assert!(matches!(decode(b" o 3 abc\n"), Decoded::Malformed));
    assert!(matches!(decode(b"12 oo 3 abc\n"), Decoded::Malformed));
    assert!(matches!(decode(b"12 o x abc\n"), Decoded::Malformed));
    assert!(matches!(decode(b"99999999999999999999 o 1 a\n"), Decoded::Malformed));
}

#[test]
fn parse_events_file_yields_entries_in_order() {
    let e1 = encode_event(&entry(LogStream::Stdout, 1_700_000_000_000, b"one\n"));
    let e2 = encode_event(&entry(LogStream::Stderr, 1_700_000_000_001, b"two\n"));
    let mut buf = e1;
    buf.extend(e2);
    let entries = parse_events_file(Bytes::from(buf));
    assert_eq!(entries.len(), 2);
    assert_eq!(entries[0].stream, LogStream::Stdout);
    assert_eq!(entries[1].stream, LogStream::Stderr);
    assert_eq!(entries[0].data.as_ref(), b"one\n");
    assert_eq!(entries[1].data.as_ref(), b"two\n");
}

#[test]
fn parse_events_file_stops_at_truncated_tail() {
    let mut buf = encode_event(&entry(LogStream::Stdout, 1, b"good\n"));
    buf.extend_from_slice(b"123 o 99 trunc"); // truncated record after valid one
    let entries = parse_events_file(Bytes::from(buf));
    assert_eq!(entries.len(), 1);
    assert_eq!(entries[0].data.as_ref(), b"good\n");
}

#[test]
fn parse_events_file_resyncs_past_malformed_record() {
    let mut buf = Vec::new();
    // Garbage record terminated by a newline; resync should skip past it.
    buf.extend_from_slice(b"garbage with bad header\n");
    buf.extend(encode_event(&entry(LogStream::Stdout, 1, b"good\n")));
    let entries = parse_events_file(Bytes::from(buf));
    assert_eq!(entries.len(), 1);
    assert_eq!(entries[0].data.as_ref(), b"good\n");
}

#[test]
fn resync_skips_past_the_next_newline() {
    assert_eq!(resync_offset(b"ab\ncd\n"), Some(3));
    assert_eq!(resync_offset(b"\n"), Some(1));
    assert_eq!(resync_offset(b"abc"), None);
}

#[test]
fn entries_clone_and_share_their_bytes() {
    let e = entry(LogStream::Stdout, 5, b"shared");
    let c = e.clone();
    assert_eq!(c.data.as_ref(), b"shared");
    assert_eq!(c.timestamp, e.timestamp);
}

#[test]
fn log_paths_for_returns_correct_structure() {
    let (stdout, stderr) = log_paths_for(Some("/home/me"), "test-container").unwrap();
    assert!(stdout.ends_with("task-logs/test-container/stdout"));
    assert!(stderr.ends_with("task-logs/test-container/stderr"));
}

#[test]
fn log_files_live_below_home() {
    assert_eq!(
        log_dir_for(Some("/home/me"), "c1").unwrap(),
        "/home/me/.containerd-manager/task-logs/c1"
    );
    assert_eq!(
        events_path_for(Some("/"), "c1").unwrap(),
        "/.containerd-manager/task-logs/c1/events.log"
    );
    let err = log_dir_for(None, "c1").unwrap_err();
    assert_eq!(err.message(), "io error: home directory");
    match err {
        Error::Io { source, .. } => assert_eq!(source.kind, IoKind::NotFound),
        other => panic!("expected Io, got {other:?}"),
    }
}

#[test]
fn rotated_files_are_read_oldest_first() {
    let events = "/logs/c1/events.log";
    let candidates = rotated_candidates(events);
    assert_eq!(candidates.len(), MAX_ROTATED_FILES as usize);
    assert_eq!(candidates[0], "/logs/c1/events.log.5");
    assert_eq!(candidates[4], "/logs/c1/events.log.1");
    let files = events_files_oldest_first(events, &vec![false, false, true, false, true]);
    assert_eq!(
        files,
        vec!["/logs/c1/events.log.3", "/logs/c1/events.log.1", "/logs/c1/events.log"]
    );
}

fn sample_files() -> Vec<Bytes> {
    let mut old = encode_event(&entry(LogStream::Stdout, 10, b"a\n"));
    old.extend(encode_event(&entry(LogStream::Stdout, 20, b"b\n")));
    let mut new = encode_event(&entry(LogStream::Stderr, 30, b"c\n"));
    new.extend(encode_event(&entry(LogStream::Stdout, 40, b"d\n")));
    vec![Bytes::from(old), Bytes::new(), Bytes::from(new)]
}

fn datas(entries: &[LogEntry]) -> Vec<Vec<u8>> {
    entries.iter().map(|e| e.data.to_vec()).collect()
}

#[test]
fn logs_span_rotated_files() {
    let all = container_logs(&sample_files());
    assert_eq!(
        datas(&all),
        vec![b"a\n".to_vec(), b"b\n".to_vec(), b"c\n".to_vec(), b"d\n".to_vec()]
    );
    let same = container_logs_filtered(&sample_files(), &LogsFilter::default());
    assert_eq!(datas(&same), datas(&all));
}

#[test]
fn filters_apply_bounds_before_tail() {
    let files = sample_files();
    let at = SystemTime::from_unix_millis;
    let since = LogsFilter::builder().since(at(20)).build();
    assert_eq!(container_logs_filtered(&files, &since).len(), 3);
    let until = LogsFilter::builder().until(at(20)).build();
    assert_eq!(datas(&container_logs_filtered(&files, &until)), vec![b"a\n".to_vec(), b"b\n".to_vec()]);
    let both = LogsFilter::builder().since(at(15)).until(at(35)).tail(1).build();
    assert_eq!(datas(&container_logs_filtered(&files, &both)), vec![b"c\n".to_vec()]);
    let none = LogsFilter::builder().tail(0).build();
    assert!(container_logs_filtered(&files, &none).is_empty());
    let many = LogsFilter::builder().tail(100).build();
    assert_eq!(container_logs_filtered(&files, &many).len(), 4);
}

fn io(kind: IoKind) -> IoError {
    IoError { kind, message: "x".to_string() }
}

#[test]
fn follower_defers_partial_record_across_polls() {
    let full = encode_event(&entry(LogStream::Stdout, 1, b"hello\n"));
    let split = full.len() / 2;
    let mut state = EventsTailState::new();
    assert_eq!(state.opened(split as u64, 9), PollStep::Read { from: 0 });
    assert!(state.read(split as u64, full[..split].to_vec()).is_empty());
    assert_eq!(
        state.opened(full.len() as u64, 9),
        PollStep::Read { from: split as u64 }
    );
    let got = state.read(full.len() as u64, full[split..].to_vec());
    assert_eq!(got.len(), 1);
    assert_eq!(got[0].data.as_ref(), b"hello\n");
    assert!(state.leftover.is_empty());
    assert_eq!(state.opened(full.len() as u64, 9), PollStep::Idle);
}

#[test]
fn follower_resets_on_rotation() {
    let old = encode_event(&entry(LogStream::Stdout, 1, b"old\n"));
    let new = encode_event(&entry(LogStream::Stdout, 2, b"new\n"));
    let mut state = EventsTailState::new();
    state.opened(old.len() as u64, 9);
    assert_eq!(state.read(old.len() as u64, old.clone()).len(), 1);
    // A different inode: the old file is drained first.
    assert_eq!(
        state.opened(new.len() as u64, 10),
        PollStep::DrainRotated { prev_inode: 9, prev_pos: old.len() as u64 }
    );
    assert_eq!(
        state.after_rotation(new.len() as u64, 10),
        PollStep::Read { from: 0 }
    );
    let got = state.read(new.len() as u64, new);
    assert_eq!(got[0].data.as_ref(), b"new\n");
    assert_eq!(state.inode, Some(10));
}

#[test]
fn follower_starts_over_on_truncation() {
    let mut state = EventsTailState { pos: 100, leftover: b"12 o".to_vec(), inode: Some(9) };
    assert_eq!(state.opened(10, 9), PollStep::Read { from: 0 });
    assert!(state.leftover.is_empty());
    assert_eq!(state.opened(0, 9), PollStep::Idle);
}

#[test]
fn follower_handles_missing_events_then_appears() {
    let mut state = EventsTailState::new();
    assert!(matches!(state.open_failed(io(IoKind::NotFound)), PollOutcome::Continue));
    // Once the file was seen, a gap keeps the position.
    state.opened(10, 9);
    state.read(10, b"1 o 9 part".to_vec());
    assert!(matches!(state.open_failed(io(IoKind::NotFound)), PollOutcome::Continue));
    assert_eq!(state.pos, 10);
    assert_eq!(state.leftover, b"1 o 9 part".to_vec());
    match state.open_failed(io(IoKind::Other)) {
        PollOutcome::Fatal(e) => assert_eq!(e.message(), "io error: follow: open events"),
        other => panic!("expected Fatal, got {other:?}"),
    }
}

#[test]
fn follower_discards_a_stuck_leftover() {
    let mut state = EventsTailState::new();
    let stuck = vec![b'x'; MAX_RECORD_BYTES + 1];
    assert!(state.read(stuck.len() as u64, stuck).is_empty());
    assert!(state.leftover.is_empty());
    let waiting = vec![b'x'; 10];
    assert!(state.read(10, waiting).is_empty());
    assert_eq!(state.leftover.len(), 10);
}

#[test]
fn rotated_file_is_drained_only_if_it_is_ours() {
    assert_eq!(rotated_drain(9, 10, 9, 25), Some(15));
    assert_eq!(rotated_drain(9, 10, 8, 25), None);
    assert_eq!(rotated_drain(9, 25, 9, 25), None);
    assert_eq!(
        rotated_drain(9, 0, 9, ROTATED_DRAIN_MAX_BYTES + 1),
        Some(ROTATED_DRAIN_MAX_BYTES)
    );
    assert!(matches!(rotated_open_failed(io(IoKind::NotFound)), PollOutcome::Continue));
    match rotated_open_failed(io(IoKind::Other)) {
        PollOutcome::Fatal(e) => {
            assert_eq!(e.message(), "io error: follow: open rotated events")
        }
        other => panic!("expected Fatal, got {other:?}"),
    }
    let rest = encode_event(&entry(LogStream::Stdout, 3, b"late\n"));
    assert_eq!(drain_rotated_remainder(rest)[0].data.as_ref(), b"late\n");
}

#[test]
fn follower_with_stop_signal_drains_then_ends() {
    let (next, send) = after_poll(FollowPhase::Poll, &PollOutcome::Continue);
    assert_eq!((next, send), (FollowPhase::Wait, false));
    assert_eq!(after_wait(false), FollowPhase::Poll);
    assert_eq!(after_wait(true), FollowPhase::FinalPoll);
    assert_eq!(
        after_poll(FollowPhase::FinalPoll, &PollOutcome::Continue),
        (FollowPhase::Done, false)
    );
    assert_eq!(
        after_poll(FollowPhase::Poll, &PollOutcome::ReceiverDropped),
        (FollowPhase::Done, false)
    );
    assert_eq!(
        after_poll(FollowPhase::Poll, &PollOutcome::Fatal(Error::NotImplemented)),
        (FollowPhase::Done, true)
    );
    assert_eq!(
        after_poll(FollowPhase::FinalPoll, &PollOutcome::Fatal(Error::NotImplemented)),
        (FollowPhase::Done, false)
    );
}

#[test]
fn reading_in_parts_equals_reading_at_once() {
    let mut whole = Vec::new();
    whole.extend(encode_event(&entry(LogStream::Stdout, 1, b"one\n")));
    whole.extend_from_slice(b"bad header here\n");
    whole.extend(encode_event(&entry(LogStream::Stderr, 2, b"two\nlines\n")));
    let at_once = datas(&parse_events_file(Bytes::from(whole.clone())));
    for split in 0..whole.len() {
        let mut state = EventsTailState::new();
        let mut got = state.read(split as u64, whole[..split].to_vec());
        got.extend(state.read(whole.len() as u64, whole[split..].to_vec()));
        assert_eq!(datas(&got), at_once);
    }
}

#[test]
fn a_missing_log_file_is_empty() {
    let missing = IoError { kind: IoKind::NotFound, message: "gone".to_string() };
    assert!(file_read_failed(missing).is_ok());
    let denied = IoError { kind: IoKind::Other, message: "denied".to_string() };
    assert_eq!(
        file_read_failed(denied).unwrap_err().message(),
        "io error: read task log file"
    );
}

#[test]
fn failed_polls_say_what_failed() {
    for (io, text) in [
        (PollIo::Stat, "io error: follow: stat events"),
        (PollIo::Seek, "io error: follow: seek events"),
        (PollIo::Read, "io error: follow: read events"),
        (PollIo::StatRotated, "io error: follow: stat rotated events"),
        (PollIo::SeekRotated, "io error: follow: seek rotated events"),
        (PollIo::ReadRotated, "io error: follow: read rotated events"),
    ] {
        let denied = IoError { kind: IoKind::Other, message: "denied".to_string() };
        match poll_failed(io, denied) {
            PollOutcome::Fatal(e) => assert_eq!(e.message(), text),
            other => panic!("expected Fatal, got {other:?}"),
        }
    }
}

#[test]
fn a_follower_delivers_a_growing_file_once() {
    let mut file: Vec<u8> = vec![];
    for i in 0..20u64 {
        file.extend(encode_event(&entry(LogStream::Stdout, i, b"line\n")));
    }
    for step in [1, 3, 7, 100, 1000] {
        let mut state = EventsTailState::new();
        let mut seen: Vec<u64> = vec![];
        let mut pos = 0;
        while pos < file.len() {
            let end = (pos + step).min(file.len());
            let out = state.read(end as u64, file[pos..end].to_vec());
            seen.extend(out.iter().map(|e| e.timestamp.unix_millis()));
            pos = end;
        }
        assert_eq!(seen, (0..20).collect::<Vec<u64>>());
        assert!(state.leftover.is_empty());
    }
}

#[test]
fn a_follower_crosses_a_rotation() {
    let mut rotated: Vec<u8> = vec![];
    for i in 0..5u64 {
        rotated.extend(encode_event(&entry(LogStream::Stdout, i, b"old\n")));
    }
    let followed = encode_event(&entry(LogStream::Stdout, 0, b"old\n")).len() * 2;
    let file: Vec<u8> = encode_event(&entry(LogStream::Stderr, 5, b"new\n")).to_vec();

    let mut state = EventsTailState::new();
    assert_eq!(state.opened(followed as u64, 7), PollStep::Read { from: 0 });
    let mut seen = state.read(followed as u64, rotated[..followed].to_vec());
    let step = state.opened(file.len() as u64, 8);
    assert_eq!(step, PollStep::DrainRotated { prev_inode: 7, prev_pos: followed as u64 });
    let want = rotated_drain(7, followed as u64, 7, rotated.len() as u64).unwrap() as usize;
    seen.extend(drain_rotated_remainder(rotated[followed..followed + want].to_vec()));
    assert_eq!(state.after_rotation(file.len() as u64, 8), PollStep::Read { from: 0 });
    seen.extend(state.read(file.len() as u64, file.clone()));
    let times: Vec<u64> = seen.iter().map(|e| e.timestamp.unix_millis()).collect();
    assert_eq!(times, vec![0, 1, 2, 3, 4, 5]);
}
