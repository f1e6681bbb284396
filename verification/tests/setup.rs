use baluchon::catalog::{CommandLine, Platform};
use baluchon::panel::auto_close;
use baluchon::progress::InstallState;
use baluchon::setup::{
    complaint_entry, end_at, errors_file, local_tmp, note_complaint_at, note_complaints, output_file,
    script_command, show_command, spawn_at, spawn_setup_init, spawn_setup_init_at,
    spawn_subprocess_with_args, within, work_dir, Event, OpenFailure, Output, Poll,
    Runner, Stage, StartFailure, Task, WorkDir,
};

fn begin(state: &mut InstallState, parse: bool) -> Runner {
    let cmd = script_command(Platform::Linux, "/m/setup.sh", true);
    spawn_at(&cmd, "setup-init", parse, "08:00:00", state)
}

#[test]
fn commands() {
    let cmd = script_command(Platform::Linux, "/m/s.sh", true);
    assert_eq!(cmd.program, "/usr/bin/script");
    assert_eq!(cmd.args, vec!["-q", "-c", "/m/s.sh", "/dev/null"]);
    let cmd = script_command(Platform::Linux, "/m/s.sh", false);
    assert_eq!((cmd.program.as_str(), cmd.args), ("/bin/bash", vec!["-c".into(), "/m/s.sh".into()]));
    let cmd = script_command(Platform::Windows, "E:\\s.bat", true);
    assert_eq!(show_command(&cmd), "cmd /c E:\\s.bat");
    assert_eq!(show_command(&CommandLine { program: "ls".into(), args: vec![] }), "ls");
}

#[test]
fn directories_to_run_in() {
    let args = |s: &str| vec!["-c".to_string(), s.to_string()];
    match work_dir("bash", &args(" /m/a/s.sh ")) {
        WorkDir::DirOf(p) => assert_eq!(p, "/m/a/s.sh"),
        other => panic!("{:?}", other),
    }
    match work_dir("cmd", &args("-c-c /m/x")) {
        WorkDir::DirOf(p) => assert_eq!(p, "/m/x"),
        other => panic!("{:?}", other),
    }
    assert!(matches!(work_dir("bash", &vec![]), WorkDir::Inherited));
    assert!(matches!(work_dir("script", &args("/m/x")), WorkDir::DirOfProgram));
    assert_eq!(output_file("setup-init"), "baluchon_setup-init_out.txt");
    assert_eq!(errors_file("setup-init"), "baluchon_setup-init_err.txt");
}

#[test]
fn temporary_files_stay_off_the_drive() {
    let tmp = |platform, there, system| local_tmp(platform, there, system, "/media/k");
    let refused = Err("le dossier temporaire est sur la clé USB".to_string());
    for platform in [Platform::Linux, Platform::Unix] {
        assert_eq!(tmp(platform, true, "/media/k/tmp"), Ok("/tmp".to_string()));
        assert_eq!(tmp(platform, false, "/var/tmp"), Ok("/var/tmp".to_string()));
        assert_eq!(tmp(platform, false, "/media/k2"), Ok("/media/k2".to_string()));
        assert_eq!(tmp(platform, false, "/media/k/tmp"), refused);
        assert_eq!(tmp(platform, false, "/media/k/"), refused);
    }
    let windows = |system| local_tmp(Platform::Windows, true, system, "E:\\");
    assert_eq!(windows("C:\\Temp"), Ok("C:\\Temp".to_string()));
    assert_eq!(windows("E:\\Temp"), refused);
    assert!(within(Platform::Windows, "E:", "E:\\"));
    assert!(within(Platform::Linux, "/media/k", "/media/k/"));
    assert!(!within(Platform::Linux, "/media", "/media/k"));
}

#[test]
fn a_setup_script_is_only_logged() {
    let mut st = InstallState::new();
    let (cmd, mut run) =
        spawn_setup_init_at(Platform::Linux, "/k/a.sh", false, "06:00:00", &mut st);
    assert_eq!(show_command(&cmd), "/bin/bash -c /k/a.sh");
    assert_eq!(st.log, vec!["[06:00:00] ▶ /bin/bash -c /k/a.sh"]);
    assert_eq!((run.label.as_str(), run.parse), ("setup-init", false));
    run.advance(Event::Opened { path: "/tmp/x".into(), failure: None }, &mut st);
    run.advance(Event::Started { refusal: None }, &mut st);
    run.advance(Event::Polled { poll: Poll::Exited }, &mut st);
    let output = Output { text: "FILE a b\nDONE a 1 1\n".into(), readings: vec![None, None] };
    run.advance(Event::Read { output: Some(output) }, &mut st);
    run.advance(Event::Complained { errors: None }, &mut st);
    run.advance(Event::Ended { success: true, tick: 0 }, &mut st);
    assert!(st.files.is_empty());
    assert_eq!(st.current_idx, 0);
    assert!(st.log[1].ends_with("] FILE a b"));
    assert!(st.log.last().unwrap().ends_with("] ✅ setup-init terminé"));

    let mut st = InstallState::new();
    let (cmd, run) = spawn_setup_init(Platform::Linux, "/k/a.sh", true, &mut st);
    assert_eq!(cmd.program, "/usr/bin/script");
    assert_eq!((run.label.as_str(), run.parse, run.offset), ("setup-init", false, 0));
    assert!(st.log[0].ends_with("] ▶ /usr/bin/script -q -c /k/a.sh /dev/null"));
}

#[test]
fn what_a_run_can_take() {
    let mut st = InstallState::new();
    let mut run = begin(&mut st, true);
    let read = |text: &str, n: usize| {
        let readings = (0..n).map(|_| None).collect();
        Event::Read { output: Some(Output { text: text.into(), readings }) }
    };
    assert!(run.takes(&Event::Opened { path: "/tmp/x".into(), failure: None }));
    assert!(!run.takes(&Event::Started { refusal: None }));
    run.stage = Stage::Draining;
    assert!(run.takes(&Event::Read { output: None }));
    assert!(run.room_for(&Event::Read { output: None }, &st));
    assert!(run.room_for(&read("FAIL a\nDONE a 1 1\n", 2), &st));
    assert!(!run.room_for(&read("FAIL a\nDONE a 1 1\n", 1), &st));
    st.current_idx = usize::MAX - 1;
    assert!(!run.room_for(&read("FAIL a\nDONE a 1 1\n", 2), &st));
    assert!(run.room_for(&read("FAIL a\nLOG a\n", 2), &st));
    run.parse = false;
    assert!(run.room_for(&read("FAIL a\nDONE a 1 1\n", 2), &st));
    run.offset = u64::MAX - 2;
    assert!(run.room_for(&read("ab", 1), &st));
    assert!(!run.room_for(&read("abc", 1), &st));
}

#[test]
fn a_run_to_its_end() {
    let mut st = InstallState::new();
    let mut run = begin(&mut st, false);
    assert_eq!(st.log, vec!["[08:00:00] ▶ /usr/bin/script -q -c /m/setup.sh /dev/null"]);
    assert_eq!(run.task(), Task::OpenFiles);
    run.advance(Event::Opened { path: "/tmp/x".into(), failure: None }, &mut st);
    assert_eq!(run.task(), Task::Start);
    run.advance(Event::Started { refusal: None }, &mut st);
    assert_eq!(run.task(), Task::Poll { wait_ms: 0 });
    run.advance(Event::Polled { poll: Poll::Running }, &mut st);
    assert_eq!(run.task(), Task::ReadOutput { from: 0 });
    let output = Output { text: "un\n\nété\n".into(), readings: vec![None, None, None] };
    run.advance(Event::Read { output: Some(output) }, &mut st);
    assert_eq!(run.task(), Task::Poll { wait_ms: 200 });
    run.advance(Event::Polled { poll: Poll::Running }, &mut st);
    assert_eq!(run.task(), Task::ReadOutput { from: 10 });
    run.advance(Event::Read { output: None }, &mut st);
    run.advance(Event::Polled { poll: Poll::Exited }, &mut st);
    assert_eq!(run.task(), Task::ReadOutput { from: 10 });
    assert_eq!(run.stage, Stage::Draining);
    run.advance(Event::Read { output: None }, &mut st);
    assert_eq!(run.task(), Task::ReadErrors);
    run.advance(Event::Complained { errors: Some(" aïe \n\n".into()) }, &mut st);
    assert_eq!(run.task(), Task::CleanUp);
    assert!(!st.done);
    run.advance(Event::Ended { success: true, tick: 77 }, &mut st);
    assert_eq!(run.task(), Task::Stop);
    assert!(st.done && st.error.is_none());
    assert_eq!((st.auto_close_secs, st.auto_close_start), (Some(5), Some(77)));
    assert_eq!(st.log.len(), 5);
    assert!(st.log[1].ends_with("] un"));
    assert!(st.log[2].ends_with("] été"));
    assert!(st.log[3].ends_with("] ⚠ aïe"));
    assert!(st.log[4].ends_with("] ✅ setup-init terminé"));
    assert_eq!(auto_close(&st, 77 + 4_999_999_999), Some(1));
    assert_eq!(auto_close(&st, 77 + 5_000_000_000), Some(0));
}

#[test]
fn the_output_of_an_assistant_is_obeyed() {
    let mut st = InstallState::new();
    let mut run = begin(&mut st, true);
    run.advance(Event::Opened { path: "/tmp/x".into(), failure: None }, &mut st);
    run.advance(Event::Started { refusal: None }, &mut st);
    run.advance(Event::Polled { poll: Poll::Unknown }, &mut st);
    assert_eq!(run.stage, Stage::Draining);
    let output = Output { text: "FILE a b\nFAIL a non".into(), readings: vec![None, None] };
    run.advance(Event::Read { output: Some(output) }, &mut st);
    assert_eq!((st.files.len(), st.fail_count(), st.current_idx), (1, 1, 1));
    assert_eq!(run.offset, 19);
    assert_eq!(run.stage, Stage::Complaints);
    run.advance(Event::Complained { errors: None }, &mut st);
    run.advance(Event::Ended { success: false, tick: 0 }, &mut st);
    assert!(st.log.last().unwrap().ends_with("] ❌ setup-init terminé"));
}

#[test]
fn files_that_cannot_be_created() {
    let mut st = InstallState::new();
    let mut run = begin(&mut st, false);
    let failure = Some(OpenFailure { reason: "plein".into(), tick: 7 });
    run.advance(Event::Opened { path: "/tmp/x".into(), failure }, &mut st);
    assert_eq!(run.task(), Task::Stop);
    assert!(st.done);
    assert_eq!(st.error.as_deref(), Some("Impossible de créer /tmp/x: plein"));
    assert_eq!((st.auto_close_secs, st.auto_close_start), (Some(5), Some(7)));
    assert_eq!(auto_close(&st, 7), Some(5));
    assert_eq!(auto_close(&st, 7 + 5_000_000_000), Some(0));
}

#[test]
fn programs_that_cannot_be_started() {
    for (code, hint) in [
        (None, ""),
        (Some(2), ""),
        (
            Some(6),
            " (ENXIO : le binaire tente d'accéder à /dev/tty — essayez de le lancer depuis un terminal)",
        ),
    ] {
        let mut st = InstallState::new();
        let mut run = begin(&mut st, false);
        run.advance(Event::Opened { path: "/tmp/x".into(), failure: None }, &mut st);
        let refusal = Some(StartFailure { reason: "absent".into(), code, tick: 9 });
        run.advance(Event::Started { refusal }, &mut st);
        assert_eq!(run.stage, Stage::Over);
        assert!(st.done);
        assert_eq!((st.auto_close_secs, st.auto_close_start), (Some(5), Some(9)));
        assert_eq!(st.error.unwrap(), format!("Lancement impossible : absent{}", hint));
    }
}

#[test]
fn complaints() {
    let wants = "ℹ Le programme a besoin d'un terminal (PTY). \
                 Relancez-le depuis un terminal si l'affichage est vide.";
    assert_eq!(complaint_entry("No such device or address (os error 6)"), wants);
    assert_eq!(complaint_entry("ENXIO"), wants);
    assert_eq!(complaint_entry("os error 7"), "⚠ os error 7");
    let mut st = InstallState::new();
    note_complaint_at("\t  ", "09:00:00", &mut st);
    assert!(st.log.is_empty());
    note_complaint_at("  oups ", "09:00:00", &mut st);
    assert_eq!(st.log, vec!["[09:00:00] ⚠ oups"]);
    note_complaints("a\n \nENXIO\r\n", &mut st);
    assert_eq!(st.log.len(), 3);
    assert!(st.log[2].ends_with(wants));
}

#[test]
fn the_end_of_a_run() {
    let mut st = InstallState::new();
    end_at("x", false, 3, "10:00:00", &mut st);
    assert_eq!(st.log, vec!["[10:00:00] ❌ x terminé"]);
    assert!(st.done);
}

#[test]
fn a_run_begins_now() {
    let mut st = InstallState::new();
    let cmd = CommandLine { program: "/bin/ls".into(), args: vec!["-l".into()] };
    let run = spawn_subprocess_with_args(&cmd, "liste", true, &mut st);
    assert_eq!((run.label.as_str(), run.parse, run.offset), ("liste", true, 0));
    assert_eq!(run.stage, Stage::Opening);
    assert!(st.log[0].ends_with("] ▶ /bin/ls -l"));
}
