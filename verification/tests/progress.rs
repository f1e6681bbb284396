use baluchon::progress::{
    numeral, numerals, parse_line, parse_line_at, read_line, read_new_lines, take_line_at,
    FileStatus, InstallState, Line, Reading,
};

fn reading(v: f32) -> Reading {
    Reading { bits: v.to_bits(), rounded: format!("{:.0}", v), tenths: format!("{:.1}", v) }
}

fn feed(st: &mut InstallState, line: &str) {
    let read = numeral(line).and_then(|s| s.parse::<f32>().ok()).map(reading);
    parse_line_at(line, read, "12:00:00", st);
}

#[test]
fn zero_is_what_is_shown_of_zero() {
    let zero = Reading::zero();
    let want = reading(0.0);
    assert_eq!(zero.bits, want.bits);
    assert_eq!(zero.rounded, want.rounded);
    assert_eq!(zero.tenths, want.tenths);
}

#[test]
fn a_fresh_setup() {
    let st = InstallState::new();
    assert!(st.files.is_empty() && st.log.is_empty());
    assert_eq!(st.current_idx, 0);
    assert!(!st.done && st.error.is_none());
    assert_eq!((st.auto_close_secs, st.auto_close_start), (None, None));
    assert_eq!((st.done_count(), st.fail_count()), (0, 0));
}

#[test]
fn file_lines() {
    let mut st = InstallState::new();
    feed(&mut st, "FILE model.bin /opt/models 12.5");
    feed(&mut st, "FILE other dest");
    feed(&mut st, "FILE third dest gros");
    feed(&mut st, "FILE fourth dest 3 et plus");
    assert_eq!(st.files.len(), 4);
    assert_eq!(st.files[0].name, "model.bin");
    assert_eq!(st.files[0].dest, "/opt/models");
    assert_eq!(st.files[0].size_mib.as_ref().unwrap().tenths, "12.5");
    assert!(matches!(st.files[0].status, FileStatus::Pending));
    assert!(st.files[1].size_mib.is_none());
    assert!(st.files[2].size_mib.is_none());
    assert_eq!(st.files[3].size_mib.as_ref().unwrap().bits, 3.0f32.to_bits());
    assert!(st.log.is_empty());
}

#[test]
fn progress_lines_mark_the_current_file() {
    let mut st = InstallState::new();
    feed(&mut st, "PROGRESS 10");
    assert_eq!(st.current_percent.bits, 10.0f32.to_bits());
    feed(&mut st, "FILE a d");
    feed(&mut st, "FILE b d");
    feed(&mut st, "PROGRESS 42.4");
    match &st.files[0].status {
        FileStatus::Downloading { percent } => assert_eq!(percent.rounded, "42"),
        other => panic!("{:?}", other),
    }
    assert!(matches!(st.files[1].status, FileStatus::Pending));
    feed(&mut st, "PROGRESS beaucoup");
    assert_eq!(st.current_percent.bits, 0);
}

#[test]
fn done_lines_end_a_file() {
    let mut st = InstallState::new();
    feed(&mut st, "FILE a d");
    feed(&mut st, "FILE b d");
    feed(&mut st, "PROGRESS 50");
    feed(&mut st, "DONE a 12.6 34");
    match &st.files[0].status {
        FileStatus::Done { mib, secs } => {
            assert_eq!(mib.rounded, "13");
            assert_eq!(*secs, 34);
        }
        other => panic!("{:?}", other),
    }
    assert_eq!(st.current_idx, 1);
    assert_eq!(st.current_percent.bits, 0);
    assert_eq!(st.log, vec!["[12:00:00] ✅ OK (13 MiB en 34s)".to_string()]);
    assert_eq!((st.done_count(), st.fail_count()), (1, 0));
    feed(&mut st, "DONE inconnu ? ?");
    assert_eq!(st.current_idx, 2);
    assert_eq!(st.log[1], "[12:00:00] ✅ OK (0 MiB en 0s)");
    assert_eq!(st.done_count(), 1);
}

#[test]
fn fail_lines_keep_their_message() {
    let mut st = InstallState::new();
    feed(&mut st, "FILE a d");
    feed(&mut st, "FAIL a plus  de place sur le disque");
    match &st.files[0].status {
        FileStatus::Failed(m) => assert_eq!(m, "plus  de place sur le disque"),
        other => panic!("{:?}", other),
    }
    assert_eq!(st.log[0], "[12:00:00] ❌ FAIL a : plus  de place sur le disque");
    feed(&mut st, "FAIL b");
    assert_eq!(st.log[1], "[12:00:00] ❌ FAIL b : ");
    assert_eq!((st.current_idx, st.fail_count()), (2, 1));
}

#[test]
fn only_the_first_file_of_a_name_is_marked() {
    let mut st = InstallState::new();
    feed(&mut st, "FILE a x");
    feed(&mut st, "FILE a y");
    feed(&mut st, "DONE a 1 1");
    feed(&mut st, "DONE a 1 1");
    assert_eq!(st.done_count(), 1);
    assert!(matches!(st.files[1].status, FileStatus::Pending));
    assert_eq!(st.current_idx, 2);
}

#[test]
fn any_other_line_is_kept() {
    let mut st = InstallState::new();
    feed(&mut st, "LOG bonjour");
    feed(&mut st, "  ");
    feed(&mut st, "");
    feed(&mut st, "FILE seul");
    feed(&mut st, "PROGRESS 1 2");
    feed(&mut st, "DONE a 1");
    feed(&mut st, "DONE a 1 2 3");
    feed(&mut st, "FAIL");
    feed(&mut st, "file a b");
    assert_eq!(st.log.len(), 7);
    assert_eq!(st.log[0], "[12:00:00] LOG bonjour");
    assert_eq!(st.log[6], "[12:00:00] file a b");
    assert!(st.files.is_empty());
    assert_eq!(st.current_idx, 0);
}

#[test]
fn lines_are_told_apart() {
    assert!(matches!(read_line("FAIL x"), Line::Fail { .. }));
    assert!(matches!(read_line("FAILx"), Line::Raw));
    assert_eq!(numeral("DONE a 1.5 2"), Some("1.5".to_string()));
    assert_eq!(numeral("FILE a b"), None);
    assert_eq!(numeral("FAIL a 3"), None);
}

#[test]
fn the_log_has_the_time_in_front() {
    let mut st = InstallState::new();
    parse_line("bonjour", None, &mut st);
    assert_eq!(st.log.len(), 1);
    let line = st.log[0].as_bytes();
    assert_eq!((line[0], line[3], line[6], line[9]), (b'[', b':', b':', b']'));
    assert!(st.log[0].ends_with("] bonjour"));
}

fn read_all(st: &mut InstallState, text: &str, offset: u64, parse: bool) -> u64 {
    let readings: Vec<Option<Reading>> = numerals(text)
        .into_iter()
        .map(|n| n.and_then(|s| s.parse::<f32>().ok()).map(reading))
        .collect();
    read_new_lines(text, offset, parse, &readings, st)
}

#[test]
fn output_is_obeyed() {
    let mut st = InstallState::new();
    let text = "FILE é d 2\r\n\n   \nPROGRESS 5\nDONE é 2 3\nfini";
    assert_eq!(read_all(&mut st, text, 7, true), 7 + text.len() as u64);
    assert_eq!(st.files.len(), 1);
    assert_eq!(st.files[0].size_mib.as_ref().unwrap().rounded, "2");
    assert_eq!(st.done_count(), 1);
    assert_eq!(st.current_idx, 1);
    assert_eq!(st.log.len(), 2);
    assert!(st.log[1].ends_with("] fini"));
}

#[test]
fn plain_output_is_kept() {
    let mut st = InstallState::new();
    assert_eq!(read_all(&mut st, "FILE a b\n\nDONE a 1 1\n", 0, false), 21);
    assert!(st.files.is_empty());
    assert_eq!(st.current_idx, 0);
    assert_eq!(st.log.len(), 2);
    assert!(st.log[0].ends_with("] FILE a b"));
}

#[test]
fn output_in_pieces_is_output_at_once() {
    let (a, b) = ("FILE a d 1\nPROGRESS 3\n", "DONE a 1 2\nbon\n");
    let mut whole = InstallState::new();
    let end = read_all(&mut whole, &format!("{}{}", a, b), 0, true);
    let mut pieces = InstallState::new();
    let mid = read_all(&mut pieces, a, 0, true);
    assert_eq!(read_all(&mut pieces, b, mid, true), end);
    assert_eq!(whole.current_idx, pieces.current_idx);
    assert_eq!(whole.done_count(), pieces.done_count());
    assert_eq!(whole.log.len(), pieces.log.len());
    assert_eq!(read_all(&mut pieces, "", end, true), end);
    assert_eq!(whole.log.len(), pieces.log.len());
}

#[test]
fn a_line_of_output() {
    let mut st = InstallState::new();
    take_line_at("FILE a b", true, None, "07:00:00", &mut st);
    take_line_at("FILE a b", false, None, "07:00:01", &mut st);
    take_line_at(" \t", false, None, "07:00:02", &mut st);
    assert_eq!(st.files.len(), 1);
    assert_eq!(st.log, vec!["[07:00:01] FILE a b"]);
}
