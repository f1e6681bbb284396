//! What running a setup script is: its command, its files, and what each event
//! of the run leads to.
use vstd::prelude::*;

use crate::catalog::{CommandLine, Platform};
use crate::clock::is_stamp;
use crate::laws::of_lines::{
    lemma_logged, log_grown, only_logged, same_files_but, same_reading, same_state,
};
use crate::progress::{
    are_stamps, end_count, reading_models, took, InstallModel, InstallState,
};
use crate::scan::{contains, joined, lines_of, trimmed, without_prefixes};
use crate::setup::{
    after_complaint, after_complaints, begun, closed_path, complaint_entry, end_at, ended,
    errors_file, fail_at, lemma_after_complaints_prefix, local_tmp, note_complaint_at,
    note_complaints, output_file, script_command, show_command, spawn_at, spawn_setup_init,
    spawn_setup_init_at, spawn_subprocess_with_args, within, work_dir, Event, OpenFailure, Output,
    Poll, Runner, Stage, StartFailure, Task, WorkDir,
};
use crate::text::{has_prefix, lines, texts};

verus! {

// ── The command ───────────────────────────────────────────────────────────────

/// The command has that program and those arguments.
pub open spec fn is_command(cmd: CommandLine, program: Seq<char>, args: Seq<Seq<char>>) -> bool {
    &&& cmd.program@ == program
    &&& cmd.args@.len() == args.len()
    &&& forall|i: int| 0 <= i < args.len() ==> (#[trigger] cmd.args@[i])@ == args[i]
}

proof fn lemma_is_command(cmd: CommandLine, program: Seq<char>, args: Seq<Seq<char>>)
    requires
        cmd@.program == program,
        cmd@.args == args,
    ensures
        is_command(cmd, program, args),
{
    assert(texts(cmd.args@).len() == cmd.args@.len());
    assert forall|i: int| 0 <= i < args.len() implies (#[trigger] cmd.args@[i])@ == args[i] by {
        assert(texts(cmd.args@)[i] == cmd.args@[i]@);
    }
}

/// A script is run by `cmd` on Windows, whatever tools there are; elsewhere by
/// `script`, where that is there, and else by the shell. Its path is handed on
/// as it is.
pub proof fn law_commands(platform: Platform, script: &str, has_tool: bool, r: CommandLine)
    requires
        call_ensures(script_command, (platform, script, has_tool), r),
    ensures
        platform == Platform::Windows ==> is_command(r, "cmd"@, seq!["/c"@, script@]),
        platform != Platform::Windows && has_tool ==> is_command(
            r,
            "/usr/bin/script"@,
            seq!["-q"@, "-c"@, script@, "/dev/null"@],
        ),
        platform != Platform::Windows && !has_tool ==> is_command(
            r,
            "/bin/bash"@,
            seq!["-c"@, script@],
        ),
{
    if platform == Platform::Windows {
        lemma_is_command(r, "cmd"@, seq!["/c"@, script@]);
    } else if has_tool {
        lemma_is_command(r, "/usr/bin/script"@, seq!["-q"@, "-c"@, script@, "/dev/null"@]);
    } else {
        lemma_is_command(r, "/bin/bash"@, seq!["-c"@, script@]);
    }
}

/// A command is shown as its program and its arguments, with spaces between.
pub proof fn law_shown_commands(cmd: &CommandLine, args: String, r: String)
    requires
        call_ensures(show_command, (cmd,), r),
        call_ensures(joined, (&cmd.args, 0usize, " "), args),
    ensures
        cmd.args@.len() == 0 ==> r@ == cmd.program@,
        cmd.args@.len() > 0 ==> r@ == cmd.program@ + " "@ + args@,
{
    assert(texts(cmd.args@).len() == cmd.args@.len());
    assert(texts(cmd.args@).skip(0) =~= texts(cmd.args@));
}

/// A command of a shell runs in the directory of its script, the last argument
/// without the `-c` in front and the blanks around it, where there is one; any
/// other in the directory of its program.
pub proof fn law_directories_of_commands(
    program: &str,
    args: &Vec<String>,
    last: &str,
    script: String,
    script_text: &str,
    path: String,
    r: WorkDir,
)
    requires
        call_ensures(work_dir, (program, args), r),
        args@.len() > 0 ==> last@ == args@.last()@,
        call_ensures(without_prefixes, (last, "-c"), script),
        script_text@ == script@,
        call_ensures(trimmed, (script_text,), path),
    ensures
        program@ != "bash"@ && program@ != "cmd"@ ==> r is DirOfProgram,
        (program@ == "bash"@ || program@ == "cmd"@) && args@.len() == 0 ==> r is Inherited,
        (program@ == "bash"@ || program@ == "cmd"@) && args@.len() > 0 ==> (r matches WorkDir::DirOf(
            p,
        ) && p@ == path@),
{
    if args@.len() > 0 {
        assert(texts(args@).last() == args@.last()@);
    }
}

// ── The files ─────────────────────────────────────────────────────────────────

/// The files of a run are named after its label, that for the output and that
/// for the complaints differently.
pub proof fn law_names_of_files(label: &str, out: String, err: String)
    requires
        call_ensures(output_file, (label,), out),
        call_ensures(errors_file, (label,), err),
    ensures
        out@ == "baluchon_"@ + label@ + "_out.txt"@,
        err@ == "baluchon_"@ + label@ + "_err.txt"@,
        out@ != err@,
{
    crate::setup::law_files_differ(label@);
}

/// A directory is within another exactly where it is that one, or stands below
/// it, behind a separator: a slash, or on Windows a backslash.
pub proof fn law_within(
    platform: Platform,
    sep: char,
    dir: &str,
    root: &str,
    rest: Seq<char>,
    r: bool,
)
    requires
        call_ensures(within, (platform, dir, root), r),
        sep == if platform == Platform::Windows {
            '\\'
        } else {
            '/'
        },
    ensures
        dir@ == root@ ==> r,
        dir@ == root@ + seq![sep] + rest ==> r,
        root@.len() > 0 && root@.last() == sep && dir@ == root@ + rest ==> r,
        r && !(root@.len() > 0 && root@.last() == sep) ==> dir@ == root@ || dir@ == root@
            + seq![sep] + dir@.skip(root@.len() as int + 1),
        r && root@.len() > 0 && root@.last() == sep ==> dir@ + seq![sep] == root@ || dir@ == root@
            + dir@.skip(root@.len() as int),
{
    let d = closed_path(dir@, sep);
    let c = closed_path(root@, sep);
    let n = c.len() as int;
    assert(r == has_prefix(d, c));
    if dir@ == root@ {
        assert(d.take(n) =~= c);
    }
    if dir@ == root@ + seq![sep] + rest {
        assert(d.take(n) =~= c);
    }
    if root@.len() > 0 && root@.last() == sep && dir@ == root@ + rest {
        assert(d.take(n) =~= c);
    }
    if r {
        assert(d.take(n) == c);
        assert forall|i: int| 0 <= i < n implies d[i] == c[i] by {
            assert(d.take(n)[i] == d[i]);
        }
        if root@.len() > 0 && root@.last() == sep {
            if dir@.len() >= n {
                assert(dir@ =~= root@ + dir@.skip(n)) by {
                    assert forall|i: int| 0 <= i < n implies dir@[i] == root@[i] by {
                        assert(d[i] == dir@[i]);
                    }
                }
            } else {
                assert(d.len() == n);
                assert(dir@ + seq![sep] =~= root@) by {
                    assert(d =~= c);
                }
            }
        } else {
            let k = root@.len() as int;
            assert(c[k] == sep);
            assert forall|i: int| 0 <= i < k implies dir@[i] == root@[i] by {
                assert(d[i] == dir@[i]);
                assert(c[i] == root@[i]);
            }
            if dir@.len() == k {
                assert(dir@ =~= root@);
            } else {
                assert(d[k] == dir@[k]);
                assert(dir@ =~= root@ + seq![sep] + dir@.skip(k + 1));
            }
        }
    }
}

/// The files of a run go to `/tmp`, where that is there, but on Windows; or else
/// where the system says, unless that is on the drive, which is refused.
pub proof fn law_directories_of_runs(
    platform: Platform,
    tmp_exists: bool,
    system: &str,
    root: &str,
    on_drive: bool,
    r: Result<String, String>,
)
    requires
        call_ensures(local_tmp, (platform, tmp_exists, system, root), r),
        call_ensures(within, (platform, system, root), on_drive),
    ensures
        platform != Platform::Windows && tmp_exists ==> (r matches Ok(dir) && dir@ == "/tmp"@),
        platform == Platform::Windows || !tmp_exists ==> {
            &&& on_drive ==> (r matches Err(e) && e@ == "le dossier temporaire est sur la clé USB"@)
            &&& !on_drive ==> (r matches Ok(dir) && dir@ == system@)
        },
{
}

// ── Beginning ─────────────────────────────────────────────────────────────────

/// A run that stands at its beginning.
pub open spec fn is_new_run(r: Runner, label: Seq<char>, parse: bool) -> bool {
    r.label@ == label && r.parse == parse && r.offset == 0 && r.stage == Stage::Opening
}

/// A run begins with the command in the log, and nothing else known.
pub proof fn law_runs_begin(
    cmd: &CommandLine,
    label: &str,
    parse: bool,
    now: &str,
    st: &mut InstallState,
    r: Runner,
    other: &mut InstallState,
    q: Runner,
    shown: String,
)
    requires
        call_ensures(spawn_at, (cmd, label, parse, now, st), r),
        call_ensures(spawn_subprocess_with_args, (cmd, label, parse, other), q),
        call_ensures(show_command, (cmd,), shown),
    ensures
        is_new_run(r, label@, parse),
        only_logged(*final(st), *old(st), now@, "▶ "@ + shown@),
        is_new_run(q, label@, parse),
        exists|t: Seq<char>|
            is_stamp(t) && #[trigger] only_logged(*final(other), *old(other), t, "▶ "@ + shown@),
{
    lemma_logged(*final(st), *old(st));
    let t = choose|t: Seq<char>|
        is_stamp(t) && final(other)@ == #[trigger] begun(old(other)@, cmd@, t);
    lemma_logged(*final(other), *old(other));
    assert(only_logged(*final(other), *old(other), t, "▶ "@ + shown@));
}

/// A setup script is run by its command, under the label `setup-init`, and its
/// output is not obeyed.
pub proof fn law_setups_begin(
    platform: Platform,
    script: &str,
    has_tool: bool,
    now: &str,
    st: &mut InstallState,
    r: (CommandLine, Runner),
    other: &mut InstallState,
    q: (CommandLine, Runner),
    cmd: CommandLine,
    shown: String,
)
    requires
        call_ensures(spawn_setup_init_at, (platform, script, has_tool, now, st), r),
        call_ensures(spawn_setup_init, (platform, script, has_tool, other), q),
        call_ensures(script_command, (platform, script, has_tool), cmd),
        call_ensures(show_command, (&cmd,), shown),
    ensures
        is_new_run(r.1, "setup-init"@, false),
        is_command(r.0, cmd.program@, cmd.args@.map_values(|a: String| a@)),
        only_logged(*final(st), *old(st), now@, "▶ "@ + shown@),
        is_new_run(q.1, "setup-init"@, false),
        is_command(q.0, cmd.program@, cmd.args@.map_values(|a: String| a@)),
        exists|t: Seq<char>|
            is_stamp(t) && #[trigger] only_logged(*final(other), *old(other), t, "▶ "@ + shown@),
{
    assert(texts(cmd.args@) =~= cmd.args@.map_values(|a: String| a@));
    lemma_is_command(r.0, cmd.program@, texts(cmd.args@));
    lemma_is_command(q.0, cmd.program@, texts(cmd.args@));
    lemma_logged(*final(st), *old(st));
    let t = choose|t: Seq<char>|
        is_stamp(t) && final(other)@ == #[trigger] begun(old(other)@, cmd@, t);
    lemma_logged(*final(other), *old(other));
    assert(only_logged(*final(other), *old(other), t, "▶ "@ + shown@));
}

// ── What is to be done ────────────────────────────────────────────────────────

/// Each stage has its task. A program that was found running is looked at again
/// after 200 milliseconds, one that was just started at once; output is read
/// from where the last reading ended.
pub proof fn law_tasks(run: &Runner, r: Task)
    requires
        call_ensures(Runner::task, (run,), r),
    ensures
        run.stage == Stage::Opening ==> r == Task::OpenFiles,
        run.stage == Stage::Starting ==> r == Task::Start,
        run.stage == (Stage::Watching { again: false }) ==> r == (Task::Poll { wait_ms: 0 }),
        run.stage == (Stage::Watching { again: true }) ==> r == (Task::Poll { wait_ms: 200 }),
        run.stage == Stage::Reading || run.stage == Stage::Draining ==> r == (Task::ReadOutput {
            from: run.offset,
        }),
        run.stage == Stage::Complaints ==> r == Task::ReadErrors,
        run.stage == Stage::Closing ==> r == Task::CleanUp,
        run.stage == Stage::Over ==> r == Task::Stop,
{
}

/// An event is taken exactly where the task was the one that it answers.
pub proof fn law_answers_to_tasks(run: &Runner, task: Task, event: &Event, r: bool)
    requires
        call_ensures(Runner::task, (run,), task),
        call_ensures(Runner::takes, (run, event), r),
    ensures
        r <==> match *event {
            Event::Opened { .. } => task is OpenFiles,
            Event::Started { .. } => task is Start,
            Event::Polled { .. } => task is Poll,
            Event::Read { .. } => task is ReadOutput,
            Event::Complained { .. } => task is ReadErrors,
            Event::Ended { .. } => task is CleanUp,
        },
{
}

/// There is room for an event unless it is output that counts too many bytes or
/// ends too many files to be counted, or whose numbers were not all read.
pub proof fn law_room(
    run: &Runner,
    event: &Event,
    state: &InstallState,
    r: bool,
    o: Output,
    text: &str,
    ls: Vec<String>,
    ends: usize,
)
    requires
        call_ensures(Runner::room_for, (run, event, state), r),
        *event == (Event::Read { output: Some(o) }) ==> text@ == o.text@ && call_ensures(
            lines_of,
            (text,),
            ls,
        ) && call_ensures(end_count, (&ls,), ends),
    ensures
        !(event matches Event::Read { output: Some(_) }) ==> r,
        *event == (Event::Read { output: Some(o) }) ==> (r <==> o.readings@.len() == ls@.len()
            && run.offset + vstd::utf8::encode_utf8(o.text@).len() <= u64::MAX && (run.parse
            ==> state.current_idx + ends <= usize::MAX)),
{
    assert(texts(ls@).len() == ls@.len());
}

// ── What an event leads to ────────────────────────────────────────────────────

/// The run is at that stage, and else as before but for its position.
pub open spec fn is_at(a: Runner, b: Runner, stage: Stage) -> bool {
    a.label@ == b.label@ && a.parse == b.parse && a.stage == stage
}

/// The setup has ended with that error, at that time: its panel closes in five
/// seconds. Nothing else has changed.
pub open spec fn has_failed(a: InstallState, b: InstallState, error: Seq<char>, tick: u64) -> bool {
    &&& a.done && a.error is Some && a.error->0@ == error
    &&& a.auto_close_secs == Some(5u32) && a.auto_close_start == Some(tick)
    &&& same_work(a, b) && log_grown(a, b, 0)
}

/// The files and the progress are the same.
pub open spec fn same_work(a: InstallState, b: InstallState) -> bool {
    &&& a.files@.len() == b.files@.len() && same_files_but(a, b, -1)
    &&& a.current_idx == b.current_idx
    &&& same_reading(a.current_percent, b.current_percent)
}

/// Where models agree in the files and the progress, and one log begins with the
/// other, so it is with the states.
proof fn lemma_same_work(a: InstallState, b: InstallState)
    requires
        a@.files == b@.files,
        a@.current_idx == b@.current_idx,
        a@.current_percent == b@.current_percent,
        b@.log.is_prefix_of(a@.log),
    ensures
        same_work(a, b),
        log_grown(a, b, a@.log.len() - b@.log.len()),
        a.log@.len() > 0 ==> a.log@.last()@ == a@.log.last(),
{
    let c = InstallState {
        done: b.done,
        error: b.error,
        auto_close_secs: b.auto_close_secs,
        auto_close_start: b.auto_close_start,
        ..a
    };
    assert(c@.files == b@.files);
    lemma_logged(c, b);
}

/// Where the file for the output was created, the program is started. Where not,
/// the run is over, and the error names the file and the reason.
pub proof fn law_after_opening(
    run: &mut Runner,
    path: String,
    failure: Option<OpenFailure>,
    st: &mut InstallState,
)
    requires
        call_ensures(Runner::advance, (run, Event::Opened { path, failure }, st), ()),
    ensures
        final(run).offset == old(run).offset,
        failure is None ==> is_at(*final(run), *old(run), Stage::Starting) && same_state(
            *final(st),
            *old(st),
        ),
        failure matches Some(f) ==> is_at(*final(run), *old(run), Stage::Over) && has_failed(
            *final(st),
            *old(st),
            "Impossible de créer "@ + path@ + ": "@ + f.reason@,
            f.tick,
        ),
{
    lemma_same_work(*final(st), *old(st));
    if failure is None {
        lemma_logged(*final(st), *old(st));
    }
}

/// Where the program was started, it is watched. Where not, the run is over, and
/// the error gives the reason, with a hint where the system says that a terminal
/// is missing.
pub proof fn law_after_starting(
    run: &mut Runner,
    refusal: Option<StartFailure>,
    st: &mut InstallState,
)
    requires
        call_ensures(Runner::advance, (run, Event::Started { refusal }, st), ()),
    ensures
        final(run).offset == old(run).offset,
        refusal is None ==> is_at(*final(run), *old(run), Stage::Watching { again: false })
            && same_state(*final(st), *old(st)),
        refusal matches Some(f) ==> is_at(*final(run), *old(run), Stage::Over) && has_failed(
            *final(st),
            *old(st),
            "Lancement impossible : "@ + f.reason@ + (if f.code == Some(6i32) {
                " (ENXIO : le binaire tente d'accéder à /dev/tty — essayez de le lancer depuis un terminal)"@
            } else {
                Seq::empty()
            }),
            f.tick,
        ),
{
    reveal_strlit("");
    assert(""@ =~= Seq::<char>::empty());
    lemma_same_work(*final(st), *old(st));
    if refusal is None {
        lemma_logged(*final(st), *old(st));
    }
}

/// A program that runs has its output read and is looked at again; of one that
/// does not, or of which that is not known, the rest of the output is read.
pub proof fn law_after_watching(run: &mut Runner, poll: Poll, st: &mut InstallState)
    requires
        call_ensures(Runner::advance, (run, Event::Polled { poll }, st), ()),
    ensures
        final(run).offset == old(run).offset,
        poll is Running ==> is_at(*final(run), *old(run), Stage::Reading),
        !(poll is Running) ==> is_at(*final(run), *old(run), Stage::Draining),
        same_state(*final(st), *old(st)),
{
    lemma_logged(*final(st), *old(st));
}

/// Output is taken in as it is read: as that of the assistant where the run is to
/// obey it, and else as plain text; the position moves behind it. While the
/// program runs it is watched on, and then its complaints are read.
pub proof fn law_after_reading(run: &mut Runner, output: Option<Output>, st: &mut InstallState)
    requires
        call_ensures(Runner::advance, (run, Event::Read { output }, st), ()),
    ensures
        old(run).stage == Stage::Reading ==> is_at(
            *final(run),
            *old(run),
            Stage::Watching { again: true },
        ),
        old(run).stage != Stage::Reading ==> is_at(*final(run), *old(run), Stage::Complaints),
        output is None ==> final(run).offset == old(run).offset && same_state(
            *final(st),
            *old(st),
        ),
        output matches Some(o) ==> final(run).offset == old(run).offset
            + vstd::utf8::encode_utf8(o.text@).len() && took(
            old(st)@,
            o.text@,
            old(run).parse,
            reading_models(o.readings@),
            final(st)@,
        ),
{
    if output is None {
        lemma_logged(*final(st), *old(st));
    }
}

/// The complaints are put into the log, and the run is closed.
pub proof fn law_after_complaints(run: &mut Runner, errors: Option<String>, st: &mut InstallState)
    requires
        call_ensures(Runner::advance, (run, Event::Complained { errors }, st), ()),
    ensures
        is_at(*final(run), *old(run), Stage::Closing),
        final(run).offset == old(run).offset,
        errors is None ==> same_state(*final(st), *old(st)),
        errors matches Some(text) ==> exists|stamps: Seq<Seq<char>>|
            are_stamps(stamps, lines(text@).len()) && final(st)@ == #[trigger] after_complaints(
                old(st)@,
                lines(text@),
                stamps,
            ),
{
    if errors is None {
        lemma_logged(*final(st), *old(st));
    }
}

/// The setup has ended at that time, without an error that was not there before:
/// its panel closes in five seconds, and the log names the run and says whether
/// it succeeded.
pub open spec fn has_ended(
    a: InstallState,
    b: InstallState,
    label: Seq<char>,
    success: bool,
    tick: u64,
    now: Seq<char>,
) -> bool {
    &&& a.done && a.error is Some == b.error is Some && (a.error is Some ==> a.error->0@
        == b.error->0@)
    &&& a.auto_close_secs == Some(5u32) && a.auto_close_start == Some(tick)
    &&& same_work(a, b) && log_grown(a, b, 1)
    &&& a.log@.last()@ == "["@ + now + "] "@ + ((if success {
        "✅"@
    } else {
        "❌"@
    }) + " "@ + label + " terminé"@)
}

/// When the program has ended, so has the run.
pub proof fn law_after_the_end(run: &mut Runner, success: bool, tick: u64, st: &mut InstallState)
    requires
        call_ensures(Runner::advance, (run, Event::Ended { success, tick }, st), ()),
    ensures
        is_at(*final(run), *old(run), Stage::Over),
        final(run).offset == old(run).offset,
        exists|now: Seq<char>|
            is_stamp(now) && #[trigger] has_ended(
                *final(st),
                *old(st),
                old(run).label@,
                success,
                tick,
                now,
            ),
{
    let now = choose|now: Seq<char>|
        is_stamp(now) && final(st)@ == #[trigger] ended(
            old(st)@,
            old(run).label@,
            success,
            tick,
            now,
        );
    lemma_same_work(*final(st), *old(st));
    assert(has_ended(*final(st), *old(st), old(run).label@, success, tick, now));
}

/// Ending a run, and failing, at a given time.
pub proof fn law_ends(
    label: &str,
    success: bool,
    tick: u64,
    now: &str,
    st: &mut InstallState,
    error: String,
    other: &mut InstallState,
)
    requires
        call_ensures(end_at, (label, success, tick, now, st), ()),
        call_ensures(fail_at, (error, tick, other), ()),
    ensures
        has_ended(*final(st), *old(st), label@, success, tick, now@),
        has_failed(*final(other), *old(other), error@, tick),
{
    lemma_same_work(*final(st), *old(st));
    lemma_same_work(*final(other), *old(other));
}

// ── Complaints ────────────────────────────────────────────────────────────────

/// A complaint that a terminal is missing, in any of three ways, is told as that;
/// any other as a warning, as it is.
pub proof fn law_complaint_entries(complaint: &str, r: String, a: bool, b: bool, c: bool)
    requires
        call_ensures(complaint_entry, (complaint,), r),
        call_ensures(contains, (complaint, "os error 6"), a),
        call_ensures(contains, (complaint, "ENXIO"), b),
        call_ensures(contains, (complaint, "No such device or address"), c),
    ensures
        a || b || c ==> r@
            == "ℹ Le programme a besoin d'un terminal (PTY). Relancez-le depuis un terminal si l'affichage est vide."@,
        !(a || b || c) ==> r@ == "⚠ "@ + complaint@,
{
}

/// A line of complaints is one entry of the log, without the blanks around it;
/// one that is blank is passed over.
pub proof fn law_lines_of_complaints(
    line: &str,
    now: &str,
    st: &mut InstallState,
    t: String,
    complaint: &str,
    text: String,
)
    requires
        call_ensures(note_complaint_at, (line, now, st), ()),
        call_ensures(trimmed, (line,), t),
        complaint@ == t@,
        call_ensures(complaint_entry, (complaint,), text),
    ensures
        t@.len() == 0 ==> same_state(*final(st), *old(st)),
        t@.len() > 0 ==> only_logged(*final(st), *old(st), now@, text@),
{
    lemma_logged(*final(st), *old(st));
}

/// Complaints are taken line by line, each at some time of day: none does
/// nothing, and one more line does what that line does.
pub proof fn law_complaints_in_turn(
    errors: &str,
    state: &mut InstallState,
    st: InstallModel,
    ls: Seq<Seq<char>>,
    stamps: Seq<Seq<char>>,
    line: Seq<char>,
    now: Seq<char>,
)
    requires
        call_ensures(note_complaints, (errors, state), ()),
        ls.len() == stamps.len(),
    ensures
        exists|s: Seq<Seq<char>>|
            are_stamps(s, lines(errors@).len()) && final(state)@ == #[trigger] after_complaints(
                old(state)@,
                lines(errors@),
                s,
            ),
        after_complaints(st, Seq::empty(), stamps) == st,
        after_complaints(st, ls.push(line), stamps.push(now)) == after_complaint(
            after_complaints(st, ls, stamps),
            line,
            now,
        ),
{
    let more = stamps.push(now);
    assert(ls.push(line).drop_last() =~= ls);
    assert(more[ls.len() as int] == now);
    lemma_after_complaints_prefix(st, ls, stamps, more);
}

} // verus!
