use bytes::Bytes;
use containerd_manager::error::{IoError, IoKind};
use containerd_manager::log_tailer::{
    events_len, needs_rotation, raw_open_failed, rotation_plan, tailer_failed, tailer_step,
    DrainStep, RotationStep, TailState, TailerErrors, TailerIo, TailerPhase, MAX_CONSECUTIVE_ERRORS, MAX_LEFTOVER_BYTES, MAX_READ_CHUNK,
};
use containerd_manager::logs::EVENTS_ROTATE_BYTES;
use containerd_manager::records::parse_events_file;
use containerd_manager::time::SystemTime;
use containerd_manager::LogStream;

fn read(state: &mut TailState, data: &[u8]) -> Vec<Vec<u8>> {
    let batch = state.read(
        data.to_vec(),
        LogStream::Stdout,
        SystemTime::from_unix_millis(5),
    );
    parse_events_file(Bytes::from(batch)).iter().map(|e| e.data.to_vec()).collect()
}

#[test]
fn rotate_when_threshold_exceeded() {
    assert!(needs_rotation(EVENTS_ROTATE_BYTES - 100, 200));
    assert!(needs_rotation(u64::MAX, u64::MAX));
}

#[test]
fn no_rotate_when_under_threshold() {
    assert!(!needs_rotation(5, 100));
    assert!(!needs_rotation(EVENTS_ROTATE_BYTES - 100, 100));
    assert!(needs_rotation(EVENTS_ROTATE_BYTES, 1));
}

fn rotate(files: &mut std::collections::HashMap<String, &'static str>) {
    for step in rotation_plan("/l/events.log") {
        match step {
            RotationStep::Remove(p) => {
                files.remove(&p);
            }
            RotationStep::Rename(a, b) => {
                if let Some(data) = files.remove(&a) {
                    files.insert(b, data);
                }
            }
            RotationStep::Create(p) => {
                files.entry(p).or_insert("");
            }
        }
    }
}

#[test]
fn rotate_without_an_events_file() {
    let mut files = std::collections::HashMap::new();
    files.insert("/l/events.log.1".to_string(), "older");
    files.insert("/l/other".to_string(), "kept");
    rotate(&mut files);
    assert_eq!(files.len(), 3);
    assert_eq!(files["/l/events.log"], "");
    assert_eq!(files["/l/events.log.2"], "older");
    assert_eq!(files["/l/other"], "kept");
}

#[test]
fn rotate_shifts_existing_files_up() {
    let mut files = std::collections::HashMap::new();
    files.insert("/l/events.log".to_string(), "newest");
    files.insert("/l/events.log.1".to_string(), "older");
    files.insert("/l/events.log.2".to_string(), "oldest");
    files.insert("/l/events.log.5".to_string(), "dropped");
    rotate(&mut files);
    assert_eq!(files.len(), 4);
    assert_eq!(files["/l/events.log"], "");
    assert_eq!(files["/l/events.log.1"], "newest");
    assert_eq!(files["/l/events.log.2"], "older");
    assert_eq!(files["/l/events.log.3"], "oldest");
}

#[test]
fn rotation_takes_seven_steps() {
    let plan = rotation_plan("/l/events.log");
    assert_eq!(plan.len(), 7);
    assert!(matches!(&plan[0], RotationStep::Remove(p) if p == "/l/events.log.5"));
    assert!(matches!(
        &plan[5],
        RotationStep::Rename(a, b) if a == "/l/events.log" && b == "/l/events.log.1"
    ));
    assert!(matches!(&plan[6], RotationStep::Create(p) if p == "/l/events.log"));
}

#[test]
fn lines_become_records_and_the_rest_waits() {
    let mut state = TailState::new();
    assert_eq!(read(&mut state, b"one\ntw"), vec![b"one\n".to_vec()]);
    assert_eq!(state.leftover, b"tw".to_vec());
    assert_eq!(state.pos, 6);
    assert_eq!(read(&mut state, b"o\n\nx"), vec![b"two\n".to_vec(), b"\n".to_vec()]);
    assert_eq!(state.leftover, b"x".to_vec());
    assert_eq!(read(&mut state, b"\n"), vec![b"x\n".to_vec()]);
    assert!(state.leftover.is_empty());
    assert_eq!(state.pos, 11);
}

#[test]
fn batch_is_written_as_records() {
    let mut state = TailState::new();
    let batch = state.read(b"a\nb".to_vec(), LogStream::Stderr, SystemTime::from_unix_millis(7));
    assert_eq!(batch, b"7 e 2 a\n\n".to_vec());
}

#[test]
fn an_endless_line_is_flushed() {
    let mut state = TailState::new();
    let long = vec![b'x'; MAX_LEFTOVER_BYTES];
    let got = read(&mut state, &long);
    assert_eq!(got, vec![long]);
    assert!(state.leftover.is_empty());
    let short = vec![b'x'; MAX_LEFTOVER_BYTES - 1];
    assert!(read(&mut state, &short).is_empty());
    assert_eq!(state.leftover.len(), MAX_LEFTOVER_BYTES - 1);
}

#[test]
fn no_byte_is_lost() {
    let data = b"first-line\nsecond\xff\x00\n\ntail".to_vec();
    for split in 0..data.len() {
        let mut state = TailState::new();
        let mut out: Vec<u8> = read(&mut state, &data[..split]).concat();
        out.extend(read(&mut state, &data[split..]).concat());
        out.extend(state.leftover.iter());
        assert_eq!(out, data);
    }
}

#[test]
fn a_pass_reads_what_is_new() {
    let mut state = TailState { pos: 10, leftover: b"ab".to_vec() };
    assert_eq!(state.sized(10), DrainStep::Idle);
    assert_eq!(state.sized(15), DrainStep::Read { from: 10, want: 5 });
    assert_eq!(
        state.sized(u64::MAX),
        DrainStep::Read { from: 10, want: MAX_READ_CHUNK }
    );
    assert_eq!(state.leftover, b"ab".to_vec());
    assert_eq!(state.sized(9), DrainStep::Reopen);
    assert_eq!(state.pos, 0);
    assert!(state.leftover.is_empty());
}

#[test]
fn a_missing_raw_file_is_no_error() {
    let io = |kind| IoError { kind, message: String::new() };
    assert!(raw_open_failed(io(IoKind::NotFound)).is_ok());
    let err = raw_open_failed(io(IoKind::Other)).unwrap_err();
    assert_eq!(err.message(), "io error: tailer: open raw");
}

#[test]
fn tailer_gives_up_after_persistent_errors() {
    let mut errors = TailerErrors::new();
    for _ in 0..MAX_CONSECUTIVE_ERRORS - 1 {
        assert!(!errors.after_pass(false, true));
    }
    // A pass that works resets the count.
    assert!(!errors.after_pass(true, true));
    for _ in 0..MAX_CONSECUTIVE_ERRORS - 1 {
        assert!(!errors.after_pass(true, false));
    }
    assert!(errors.after_pass(true, false));
}

#[test]
fn the_log_holds_the_stream_however_it_is_cut() {
    let stream = b"first\nsecond\n\nthird and\nan open end";
    for size in 1..stream.len() {
        let mut state = TailState::new();
        let mut log: Vec<u8> = vec![];
        for (i, part) in stream.chunks(size).enumerate() {
            let now = SystemTime::from_unix_millis(i as u64);
            log.extend(state.read(part.to_vec(), LogStream::Stderr, now));
        }
        let entries = parse_events_file(Bytes::from(log));
        let lines: Vec<Vec<u8>> = entries.iter().map(|e| e.data.to_vec()).collect();
        assert_eq!(
            lines,
            vec![
                b"first\n".to_vec(),
                b"second\n".to_vec(),
                b"\n".to_vec(),
                b"third and\n".to_vec()
            ]
        );
        assert!(entries.iter().all(|e| e.stream == LogStream::Stderr));
        assert_eq!(state.leftover, b"an open end".to_vec());
        assert_eq!(state.pos, stream.len() as u64);
    }
}

#[test]
fn a_stopped_tailer_makes_one_more_pass() {
    assert_eq!(tailer_step(TailerPhase::Pass, false, true), TailerPhase::Wait);
    assert_eq!(tailer_step(TailerPhase::Pass, true, false), TailerPhase::Done);
    assert_eq!(tailer_step(TailerPhase::Wait, true, false), TailerPhase::Pass);
    assert_eq!(tailer_step(TailerPhase::Wait, false, true), TailerPhase::FinalPass);
    assert_eq!(tailer_step(TailerPhase::FinalPass, false, false), TailerPhase::Done);
    assert_eq!(tailer_step(TailerPhase::Done, false, true), TailerPhase::Done);
}

#[test]
fn failed_passes_say_what_failed() {
    let denied = || IoError { kind: IoKind::Other, message: "denied".to_string() };
    let missing = || IoError { kind: IoKind::NotFound, message: "gone".to_string() };
    assert_eq!(events_len(Ok(7)).unwrap(), 7);
    assert_eq!(events_len(Err(missing())).unwrap(), 0);
    assert_eq!(
        events_len(Err(denied())).unwrap_err().message(),
        "io error: tailer: stat events"
    );
    for (io, text) in [
        (TailerIo::StatRaw, "io error: tailer: stat raw"),
        (TailerIo::SeekRaw, "io error: tailer: seek raw"),
        (TailerIo::ReadRaw, "io error: tailer: read raw"),
        (TailerIo::OpenEvents, "io error: tailer: open events"),
        (TailerIo::WriteEvents, "io error: tailer: write events"),
        (TailerIo::CreateEvents, "io error: tailer: create new events after rotate"),
    ] {
        assert_eq!(tailer_failed(io, denied()).message(), text);
    }
}
