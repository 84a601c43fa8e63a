use pacdump::matcher::Match;
use pacdump::scanner::ArchiveEvent;
use pacdump::scanner::EntryState;
use pacdump::scanner::OutputItem;
use pacdump::scanner::ScanAction;
use pacdump::scanner::ScanState;
use pacdump::scanner::is_binary;
use pacdump::scanner::scan_archive;
use pacdump::scanner::scan_step;

fn strings(v: &[&str]) -> Vec<String> {
    v.iter().map(|s| s.to_string()).collect()
}

fn entry(name: &str, data: &[u8]) -> Vec<ArchiveEvent> {
    vec![
        ArchiveEvent::Start(name.to_string()),
        ArchiveEvent::Data(data.to_vec()),
        ArchiveEvent::End,
    ]
}

#[test]
fn exact_mode_needs_every_distinct_pattern() {
    let m = Match::new(false, strings(&["a", "b"])).unwrap();
    let mut events = entry("a", b"one");
    events.extend(entry("b", b"two"));
    let r = scan_archive(&events, &m, true, false).unwrap();
    assert_eq!(r.found, 2);
    assert_eq!(r.status, 0);

    let only_a = entry("a", b"one");
    let r = scan_archive(&only_a, &m, true, false).unwrap();
    assert_eq!(r.found, 1);
    assert_eq!(r.status, 1);
}

#[test]
fn exact_mode_counts_distinct_patterns_once() {
    let m = Match::new(false, strings(&["a", "a", "b"])).unwrap();
    let mut events = entry("a", b"one");
    events.extend(entry("b", b"two"));
    let r = scan_archive(&events, &m, true, false).unwrap();
    assert_eq!(r.found, 2);
    assert_eq!(r.status, 0);
}

#[test]
fn regex_mode_needs_one_match() {
    let m = Match::new(true, strings(&["^lib", "^share"])).unwrap();
    let events = entry("libx", b"data");
    let r = scan_archive(&events, &m, true, false).unwrap();
    assert_eq!(r.found, 1);
    assert_eq!(r.status, 0);

    let events = entry("etc", b"data");
    let r = scan_archive(&events, &m, true, false).unwrap();
    assert_eq!(r.found, 0);
    assert_eq!(r.status, 1);
}

#[test]
fn first_chunk_with_late_zero_is_flagged() {
    let mut chunk = vec![b'x'; 512];
    chunk[511] = 0;
    assert!(is_binary(&chunk));

    let m = Match::new(false, strings(&["f"])).unwrap();
    let events = entry("f", &chunk);
    let r = scan_archive(&events, &m, false, false).unwrap();
    assert_eq!(r.found, 1);
    assert_eq!(r.diagnostics, strings(&["f"]));
    assert!(r.output.is_empty());
}

#[test]
fn zero_beyond_first_512_bytes_is_not_flagged() {
    let mut chunk = vec![b'x'; 513];
    chunk[512] = 0;
    assert!(!is_binary(&chunk));
}

#[test]
fn binary_guard_reads_only_the_first_chunk() {
    let m = Match::new(false, strings(&["f"])).unwrap();
    let events = vec![
        ArchiveEvent::Start("f".to_string()),
        ArchiveEvent::Data(b"clean text".to_vec()),
        ArchiveEvent::Data(b"later\0zero".to_vec()),
        ArchiveEvent::End,
    ];
    let r = scan_archive(&events, &m, false, false).unwrap();
    assert_eq!(r.found, 1);
    assert!(r.diagnostics.is_empty());
    assert_eq!(r.output.len(), 2);
    assert!(matches!(&r.output[0], OutputItem::Bytes(b) if b == b"clean text"));
    assert!(matches!(&r.output[1], OutputItem::Bytes(b) if b == b"later\0zero"));
}

#[test]
fn allow_binary_streams_flagged_content() {
    let m = Match::new(false, strings(&["f"])).unwrap();
    let events = entry("f", b"bin\0content");
    let r = scan_archive(&events, &m, false, true).unwrap();
    assert!(r.diagnostics.is_empty());
    assert!(matches!(&r.output[0], OutputItem::Bytes(b) if b == b"bin\0content"));
}

#[test]
fn quiet_mode_prints_names_only() {
    let m = Match::new(false, strings(&["f"])).unwrap();
    let events = entry("f", b"bin\0content");
    let r = scan_archive(&events, &m, true, false).unwrap();
    assert_eq!(r.found, 1);
    assert!(r.diagnostics.is_empty());
    assert_eq!(r.output.len(), 1);
    assert!(matches!(&r.output[0], OutputItem::Name(n) if n == "f"));
}

#[test]
fn unmatched_entries_are_skipped() {
    let m = Match::new(false, strings(&["wanted"])).unwrap();
    let mut events = entry("other", b"noise");
    events.extend(entry("wanted", b"payload"));
    let r = scan_archive(&events, &m, false, false).unwrap();
    assert_eq!(r.found, 1);
    assert_eq!(r.output.len(), 1);
    assert!(matches!(&r.output[0], OutputItem::Bytes(b) if b == b"payload"));
}

#[test]
fn step_machine_streams_then_guards() {
    let m = Match::new(false, strings(&["f"])).unwrap();
    let st = ScanState { state: EntryState::Skip, found: 0, cur_file: String::new() };
    let (st, a) = scan_step(st, ArchiveEvent::Start("f".to_string()), &m, false, false);
    assert_eq!(st.state, EntryState::FirstChunk);
    assert_eq!(st.found, 1);
    assert!(matches!(a, ScanAction::Ignore));
    let (st, a) = scan_step(st, ArchiveEvent::Data(b"bad\0bytes".to_vec()), &m, false, false);
    assert_eq!(st.state, EntryState::Skip);
    assert!(matches!(a, ScanAction::BinaryNotice(n) if n == "f"));
    let (st, a) = scan_step(st, ArchiveEvent::Data(b"more".to_vec()), &m, false, false);
    assert_eq!(st.state, EntryState::Skip);
    assert!(matches!(a, ScanAction::Ignore));
    let (_, a) = scan_step(st, ArchiveEvent::End, &m, false, false);
    assert!(matches!(a, ScanAction::Ignore));
}

#[test]
fn stream_error_aborts_the_scan() {
    let m = Match::new(false, strings(&["f"])).unwrap();
    let events = vec![
        ArchiveEvent::Start("f".to_string()),
        ArchiveEvent::Error("truncated archive".to_string()),
        ArchiveEvent::Data(b"never seen".to_vec()),
    ];
    let r = scan_archive(&events, &m, false, false);
    match r {
        Err(msg) => assert_eq!(msg, "truncated archive"),
        Ok(_) => panic!("expected the stream error to abort the scan"),
    }
}
