//! Running the setup script of an application in the background.
//!
//! The run is a sequence of tasks. `Runner::task` names the one to do, and
//! `Runner::advance` takes what came of it. The output of the script goes to
//! two files in a directory for temporary files, `local_tmp`, which is not on
//! the drive.
use vstd::prelude::*;

use crate::catalog::{CommandLine, CommandModel, Platform};
use crate::clock::{chrono_stamp, is_stamp, stamped};
use crate::progress::{
    after_output, are_stamps, count_ends, end_count, read_new_lines, reading_models, took,
    InstallModel, InstallState, Reading, ReadingModel,
};
use crate::laws::{law_output_counts, law_plain_output_only_logs};
use crate::scan::{contains, joined, lines_of, starts_with, trimmed, without_prefixes};
use crate::text::{
    chars_of, has_prefix, has_text, join, lines, same_text, strip_all, texts, trim,
};

verus! {

// ── The command ───────────────────────────────────────────────────────────────

/// The command that runs a script. On Linux it gets a terminal of its own from
/// `script`, where that is there, and else is run by the shell.
pub open spec fn setup_command(platform: Platform, script: Seq<char>, has_script_tool: bool) ->
    CommandModel {
    match platform {
        Platform::Linux | Platform::Unix => if has_script_tool {
            CommandModel {
                program: "/usr/bin/script"@,
                args: seq!["-q"@, "-c"@, script, "/dev/null"@],
            }
        } else {
            CommandModel { program: "/bin/bash"@, args: seq!["-c"@, script] }
        },
        Platform::Windows => CommandModel { program: "cmd"@, args: seq!["/c"@, script] },
    }
}

/// The command that runs the script at the path `script`; `has_script_tool`
/// tells whether there is a `/usr/bin/script`.
pub fn script_command(platform: Platform, script: &str, has_script_tool: bool) -> (r: CommandLine)
    ensures
        r@ == setup_command(platform, script@, has_script_tool),
{
    let mut args: Vec<String> = Vec::new();
    let program: &str = match platform {
        Platform::Linux | Platform::Unix => if has_script_tool {
            args.push("-q".to_owned());
            args.push("-c".to_owned());
            args.push(script.to_owned());
            args.push("/dev/null".to_owned());
            "/usr/bin/script"
        } else {
            args.push("-c".to_owned());
            args.push(script.to_owned());
            "/bin/bash"
        },
        Platform::Windows => {
            args.push("/c".to_owned());
            args.push(script.to_owned());
            "cmd"
        },
    };
    let r = CommandLine { program: program.to_owned(), args };
    assert(r@.args =~= setup_command(platform, script@, has_script_tool).args);
    r
}

/// A command as it is shown.
pub open spec fn command_text(cmd: CommandModel) -> Seq<char> {
    if cmd.args.len() == 0 {
        cmd.program
    } else {
        cmd.program + " "@ + join(cmd.args, " "@)
    }
}

/// A command as it is shown.
pub fn show_command(cmd: &CommandLine) -> (r: String)
    ensures
        r@ == command_text(cmd@),
{
    assert(texts(cmd.args@).skip(0) =~= texts(cmd.args@));
    if cmd.args.len() == 0 {
        cmd.program.clone()
    } else {
        let args = joined(&cmd.args, 0, " ");
        cmd.program.clone().concat(" ").concat(args.as_str())
    }
}

/// Where a command runs.
#[derive(Debug)]
pub enum WorkDir {
    /// Where the manager runs.
    Inherited,
    /// In the directory of that file, where the directory exists.
    DirOf(String),
    /// In the directory of the program.
    DirOfProgram,
}

#[verifier::ext_equal]
pub enum WorkDirModel {
    Inherited,
    DirOf(Seq<char>),
    DirOfProgram,
}

impl View for WorkDir {
    type V = WorkDirModel;

    open spec fn view(&self) -> WorkDirModel {
        match *self {
            WorkDir::Inherited => WorkDirModel::Inherited,
            WorkDir::DirOf(path) => WorkDirModel::DirOf(path@),
            WorkDir::DirOfProgram => WorkDirModel::DirOfProgram,
        }
    }
}

/// Where a command runs whose program has the file name `program`: for a shell,
/// in the directory of the script, which is its last argument.
pub open spec fn work_dir_of(program: Seq<char>, args: Seq<Seq<char>>) -> WorkDirModel {
    if program == "bash"@ || program == "cmd"@ {
        if args.len() == 0 {
            WorkDirModel::Inherited
        } else {
            WorkDirModel::DirOf(trim(strip_all(args.last(), "-c"@)))
        }
    } else {
        WorkDirModel::DirOfProgram
    }
}

/// Where a command runs whose program has the file name `program`.
pub fn work_dir(program: &str, args: &Vec<String>) -> (r: WorkDir)
    ensures
        r@ == work_dir_of(program@, texts(args@)),
{
    if same_text(program, "bash") || same_text(program, "cmd") {
        if args.len() == 0 {
            WorkDir::Inherited
        } else {
            assert(texts(args@).last() == args@[args@.len() - 1]@);
            let script = without_prefixes(args[args.len() - 1].as_str(), "-c");
            WorkDir::DirOf(trimmed(script.as_str()))
        }
    } else {
        WorkDir::DirOfProgram
    }
}

// ── Its files ─────────────────────────────────────────────────────────────────

/// The character between the parts of a path.
pub open spec fn separator(platform: Platform) -> char {
    match platform {
        Platform::Linux | Platform::Unix => '/',
        Platform::Windows => '\\',
    }
}

/// A path with a separator at its end.
pub open spec fn closed_path(path: Seq<char>, sep: char) -> Seq<char> {
    if path.len() > 0 && path.last() == sep {
        path
    } else {
        path.push(sep)
    }
}

/// The directory `dir` is `root` or below it. Both are full paths, without
/// links.
pub open spec fn is_within(platform: Platform, dir: Seq<char>, root: Seq<char>) -> bool {
    has_prefix(
        closed_path(dir, separator(platform)),
        closed_path(root, separator(platform)),
    )
}

/// The directory for the files of a run, or why there is none.
pub open spec fn tmp_of(
    platform: Platform,
    tmp_exists: bool,
    system: Seq<char>,
    root: Seq<char>,
) -> Result<Seq<char>, Seq<char>> {
    if platform != Platform::Windows && tmp_exists {
        Ok("/tmp"@)
    } else if is_within(platform, system, root) {
        Err("le dossier temporaire est sur la clé USB"@)
    } else {
        Ok(system)
    }
}

/// The text of a result, whichever it is.
pub open spec fn result_text(r: Result<String, String>) -> Result<Seq<char>, Seq<char>> {
    match r {
        Ok(s) => Ok(s@),
        Err(e) => Err(e@),
    }
}

fn close_path(path: &str, sep: char) -> (r: String)
    ensures
        r@ == closed_path(path@, sep),
{
    let v = chars_of(path);
    let mut r = path.to_owned();
    if !(v.len() > 0 && v[v.len() - 1] == sep) {
        r.push(sep);
    }
    r
}

/// Whether the directory `dir` is `root` or below it. Both are full paths,
/// without links.
pub fn within(platform: Platform, dir: &str, root: &str) -> (r: bool)
    ensures
        r == is_within(platform, dir@, root@),
{
    let sep: char = match platform {
        Platform::Linux | Platform::Unix => '/',
        Platform::Windows => '\\',
    };
    let dir = close_path(dir, sep);
    let root = close_path(root, sep);
    starts_with(dir.as_str(), root.as_str())
}

/// The directory for the files of a run, which must not be on the drive at
/// `root`: `/tmp`, but on Windows, where it is there (`tmp_exists`); or else
/// `system`, the one that the system names, unless that is on the drive.
pub fn local_tmp(platform: Platform, tmp_exists: bool, system: &str, root: &str) -> (r: Result<
    String,
    String,
>)
    ensures
        result_text(r) == tmp_of(platform, tmp_exists, system@, root@),
{
    let has_tmp: bool = match platform {
        Platform::Linux | Platform::Unix => tmp_exists,
        Platform::Windows => false,
    };
    if has_tmp {
        Ok("/tmp".to_owned())
    } else if within(platform, system, root) {
        Err("le dossier temporaire est sur la clé USB".to_owned())
    } else {
        Ok(system.to_owned())
    }
}

/// The name of the file for the output of a run with this label.
pub fn output_file(label: &str) -> (r: String)
    ensures
        r@ == "baluchon_"@ + label@ + "_out.txt"@,
{
    "baluchon_".to_owned().concat(label).concat("_out.txt")
}

/// The name of the file for the complaints of a run with this label.
pub fn errors_file(label: &str) -> (r: String)
    ensures
        r@ == "baluchon_"@ + label@ + "_err.txt"@,
{
    "baluchon_".to_owned().concat(label).concat("_err.txt")
}

// ── The run ───────────────────────────────────────────────────────────────────

/// How far a run is.
#[derive(Clone, Copy, Debug, PartialEq, Eq, Structural)]
pub enum Stage {
    /// The files for the output are to be created.
    Opening,
    /// The program is to be started.
    Starting,
    /// The program has been started; `again`: it ran the last time it was
    /// looked at.
    Watching { again: bool },
    /// The program runs, and there may be more output.
    Reading,
    /// The program has ended, and there may be more output.
    Draining,
    /// The complaints are to be read.
    Complaints,
    /// What is left of the program and the files is to be cleared away.
    Closing,
    Over,
}

/// What is to be done next.
#[derive(Clone, Copy, Debug, PartialEq, Eq, Structural)]
pub enum Task {
    /// Create the files for the output and for the complaints.
    OpenFiles,
    /// Start the program in a session of its own, without input.
    Start,
    /// Wait that long, and look whether the program has ended.
    Poll { wait_ms: u64 },
    /// Read the output from a position on.
    ReadOutput { from: u64 },
    ReadErrors,
    /// Remove both files and collect how the program ended.
    CleanUp,
    Stop,
}

/// Whether a program was found to run.
#[derive(Clone, Copy, Debug, PartialEq, Eq, Structural)]
pub enum Poll {
    Running,
    Exited,
    /// That could not be found out.
    Unknown,
}

/// Why the file for the output could not be created, and when that was found,
/// in nanoseconds on the clock that only goes forward.
#[derive(Debug)]
pub struct OpenFailure {
    pub reason: String,
    pub tick: u64,
}

/// Why a program could not be started: the reason, and the number that the
/// system has for it; and when that was found.
#[derive(Debug)]
pub struct StartFailure {
    pub reason: String,
    pub code: Option<i32>,
    pub tick: u64,
}

/// Output, and what the numbers of its lines were read as.
#[derive(Debug)]
pub struct Output {
    pub text: String,
    pub readings: Vec<Option<Reading>>,
}

/// What came of a task.
#[derive(Debug)]
pub enum Event {
    /// The file at `path` for the output was created, unless there is a
    /// `failure`.
    Opened { path: String, failure: Option<OpenFailure> },
    /// The program was started, unless there is a `refusal`.
    Started { refusal: Option<StartFailure> },
    Polled { poll: Poll },
    /// New output, or none where it could not be read.
    Read { output: Option<Output> },
    /// The complaints, or none where they could not be read.
    Complained { errors: Option<String> },
    /// Whether the program succeeded, and the time on the clock that only goes
    /// forward, in nanoseconds.
    Ended { success: bool, tick: u64 },
}

/// A run.
#[derive(Debug)]
pub struct Runner {
    pub label: String,
    /// Whether the output is that of the setup assistant.
    pub parse: bool,
    /// How many bytes of the output have been read.
    pub offset: u64,
    pub stage: Stage,
}

/// The event is one that can come at the stage.
pub open spec fn fits(stage: Stage, event: Event) -> bool {
    match stage {
        Stage::Opening => event is Opened,
        Stage::Starting => event is Started,
        Stage::Watching { .. } => event is Polled,
        Stage::Reading => event is Read,
        Stage::Draining => event is Read,
        Stage::Complaints => event is Complained,
        Stage::Closing => event is Ended,
        Stage::Over => false,
    }
}

/// The stage that follows.
pub open spec fn next_stage(stage: Stage, event: Event) -> Stage {
    match event {
        Event::Opened { path, failure } => if failure is Some {
            Stage::Over
        } else {
            Stage::Starting
        },
        Event::Started { refusal } => if refusal is Some {
            Stage::Over
        } else {
            Stage::Watching { again: false }
        },
        Event::Polled { poll } => if poll is Running {
            Stage::Reading
        } else {
            Stage::Draining
        },
        Event::Read { output } => if stage is Reading {
            Stage::Watching { again: true }
        } else {
            Stage::Complaints
        },
        Event::Complained { errors } => Stage::Closing,
        Event::Ended { success, tick } => Stage::Over,
    }
}

/// The task of a stage.
pub open spec fn task_of(stage: Stage, offset: u64) -> Task {
    match stage {
        Stage::Opening => Task::OpenFiles,
        Stage::Starting => Task::Start,
        Stage::Watching { again } => Task::Poll {
            wait_ms: if again {
                200
            } else {
                0
            },
        },
        Stage::Reading => Task::ReadOutput { from: offset },
        Stage::Draining => Task::ReadOutput { from: offset },
        Stage::Complaints => Task::ReadErrors,
        Stage::Closing => Task::CleanUp,
        Stage::Over => Task::Stop,
    }
}

/// The position behind what has been read.
pub open spec fn next_offset(offset: u64, event: Event) -> int {
    match event {
        Event::Read { output: Some(o) } => offset + vstd::utf8::encode_utf8(o.text@).len(),
        _ => offset as int,
    }
}

/// A setup that has ended at `tick`: its panel closes by itself in five
/// seconds.
pub open spec fn over(st: InstallModel, tick: u64) -> InstallModel {
    InstallModel {
        done: true,
        auto_close_secs: Some(5),
        auto_close_start: Some(tick),
        ..st
    }
}

/// A setup that has ended at `tick` with an error.
pub open spec fn failed(st: InstallModel, error: Seq<char>, tick: u64) -> InstallModel {
    InstallModel { error: Some(error), ..over(st, tick) }
}

/// What is said where the file for the output could not be created.
pub open spec fn open_failure_text(path: Seq<char>, reason: Seq<char>) -> Seq<char> {
    "Impossible de créer "@ + path + ": "@ + reason
}

/// What is said where the program could not be started.
pub open spec fn start_failure_text(failure: StartFailure) -> Seq<char> {
    "Lancement impossible : "@ + failure.reason@ + if failure.code == Some(6i32) {
        " (ENXIO : le binaire tente d'accéder à /dev/tty — essayez de le lancer depuis un terminal)"@
    } else {
        ""@
    }
}

/// A complaint of a program that wants a terminal.
pub open spec fn wants_terminal(complaint: Seq<char>) -> bool {
    ||| has_text(complaint, "os error 6"@)
    ||| has_text(complaint, "ENXIO"@)
    ||| has_text(complaint, "No such device or address"@)
}

/// What the log says of a complaint.
pub open spec fn complaint_text(complaint: Seq<char>) -> Seq<char> {
    if wants_terminal(complaint) {
        "ℹ Le programme a besoin d'un terminal (PTY). Relancez-le depuis un terminal si l'affichage est vide."@
    } else {
        "⚠ "@ + complaint
    }
}

/// The state after a line of the complaints.
pub open spec fn after_complaint(st: InstallModel, line: Seq<char>, now: Seq<char>) ->
    InstallModel {
    if trim(line).len() == 0 {
        st
    } else {
        InstallModel { log: st.log.push(stamped(now, complaint_text(trim(line)))), ..st }
    }
}

/// The state after all the complaints.
pub open spec fn after_complaints(
    st: InstallModel,
    ls: Seq<Seq<char>>,
    stamps: Seq<Seq<char>>,
) -> InstallModel
    decreases ls.len(),
{
    if ls.len() == 0 {
        st
    } else {
        after_complaint(
            after_complaints(st, ls.drop_last(), stamps),
            ls.last(),
            stamps[ls.len() - 1],
        )
    }
}

/// What the log says at the end.
pub open spec fn end_text(label: Seq<char>, success: bool) -> Seq<char> {
    (if success {
        "✅"@
    } else {
        "❌"@
    }) + " "@ + label + " terminé"@
}

/// The state at the end of a run that was started.
pub open spec fn ended(
    st: InstallModel,
    label: Seq<char>,
    success: bool,
    tick: u64,
    now: Seq<char>,
) -> InstallModel {
    InstallModel {
        log: st.log.push(stamped(now, end_text(label, success))),
        ..over(st, tick)
    }
}

/// What an event does to the state of the setup.
pub open spec fn moves(
    label: Seq<char>,
    parse: bool,
    event: Event,
    st: InstallModel,
    after: InstallModel,
) -> bool {
    match event {
        Event::Opened { path, failure } => after == match failure {
            Some(f) => failed(st, open_failure_text(path@, f.reason@), f.tick),
            None => st,
        },
        Event::Started { refusal } => after == match refusal {
            Some(f) => failed(st, start_failure_text(f), f.tick),
            None => st,
        },
        Event::Polled { poll } => after == st,
        Event::Read { output } => match output {
            Some(o) => took(st, o.text@, parse, reading_models(o.readings@), after),
            None => after == st,
        },
        Event::Complained { errors } => match errors {
            Some(text) => exists|stamps: Seq<Seq<char>>|
                are_stamps(stamps, lines(text@).len()) && after == #[trigger] after_complaints(
                    st,
                    lines(text@),
                    stamps,
                ),
            None => after == st,
        },
        Event::Ended { success, tick } => exists|now: Seq<char>|
            is_stamp(now) && after == #[trigger] ended(st, label, success, tick, now),
    }
}

/// What of an event the state and the run have room for.
pub open spec fn has_room(parse: bool, offset: u64, event: Event, st: InstallState) -> bool {
    match event {
        Event::Read { output: Some(o) } => {
            &&& o.readings@.len() == lines(o.text@).len()
            &&& offset + vstd::utf8::encode_utf8(o.text@).len() <= u64::MAX
            &&& parse ==> st.current_idx + count_ends(lines(o.text@)) <= usize::MAX
        },
        _ => true,
    }
}

/// What the log says of a complaint.
pub fn complaint_entry(complaint: &str) -> (r: String)
    ensures
        r@ == complaint_text(complaint@),
{
    if contains(complaint, "os error 6") || contains(complaint, "ENXIO") || contains(
        complaint,
        "No such device or address",
    ) {
        "ℹ Le programme a besoin d'un terminal (PTY). Relancez-le depuis un terminal si l'affichage est vide.".to_owned()
    } else {
        "⚠ ".to_owned().concat(complaint)
    }
}

/// Takes in a line of the complaints.
pub fn note_complaint_at(line: &str, now: &str, state: &mut InstallState)
    ensures
        final(state)@ == after_complaint(old(state)@, line@, now@),
{
    let t = trimmed(line);
    if !t.as_str().is_empty() {
        let text = complaint_entry(t.as_str());
        state.note_at(now, text.as_str());
    }
}

/// The times of later complaints do not matter to earlier ones.
pub proof fn lemma_after_complaints_prefix(
    st: InstallModel,
    ls: Seq<Seq<char>>,
    stamps: Seq<Seq<char>>,
    more: Seq<Seq<char>>,
)
    requires
        ls.len() <= stamps.len() <= more.len(),
        forall|i: int| 0 <= i < stamps.len() ==> stamps[i] == #[trigger] more[i],
    ensures
        after_complaints(st, ls, stamps) == after_complaints(st, ls, more),
    decreases ls.len(),
{
    if ls.len() > 0 {
        lemma_after_complaints_prefix(st, ls.drop_last(), stamps, more);
        assert(stamps[ls.len() - 1] == more[ls.len() - 1]);
    }
}

/// Takes in the complaints, line by line, each at the time at which it is
/// taken.
pub fn note_complaints(errors: &str, state: &mut InstallState)
    ensures
        exists|stamps: Seq<Seq<char>>|
            are_stamps(stamps, lines(errors@).len()) && final(state)@
                == #[trigger] after_complaints(old(state)@, lines(errors@), stamps),
{
    let ghost st0 = state@;
    let ghost all = lines(errors@);
    let ghost mut stamps: Seq<Seq<char>> = Seq::empty();
    let ls = lines_of(errors);
    let mut i: usize = 0;
    assert(ls@.len() == all.len());
    assert(all.take(0) =~= Seq::empty());
    while i < ls.len()
        invariant
            i <= ls@.len(),
            texts(ls@) == all,
            ls@.len() == all.len(),
            are_stamps(stamps, i as nat),
            state@ == after_complaints(st0, all.take(i as int), stamps),
        decreases ls@.len() - i,
    {
        let ghost line = all[i as int];
        assert(texts(ls@)[i as int] == ls@[i as int]@);
        assert(all.take(i + 1).drop_last() =~= all.take(i as int));
        assert(all.take(i + 1).last() == line);
        let now = chrono_stamp();
        note_complaint_at(ls[i].as_str(), now.as_str(), state);
        proof {
            let more = stamps.push(now@);
            assert forall|j: int| 0 <= j < i + 1 implies is_stamp(#[trigger] more[j]) by {
                if j < i {
                    assert(more[j] == stamps[j]);
                }
            }
            lemma_after_complaints_prefix(st0, all.take(i as int), stamps, more);
            stamps = more;
        }
        i += 1;
    }
    assert(all.take(i as int) =~= all);
}

/// Takes in the end of a run with this label, at the time of day `now`.
pub fn end_at(label: &str, success: bool, tick: u64, now: &str, state: &mut InstallState)
    ensures
        final(state)@ == ended(old(state)@, label@, success, tick, now@),
{
    let mark: &str = if success {
        "✅"
    } else {
        "❌"
    };
    let text = mark.to_owned().concat(" ").concat(label).concat(" terminé");
    state.note_at(now, text.as_str());
    close_soon(tick, state);
}

/// Takes in that the setup has ended with an error.
pub fn fail_at(error: String, tick: u64, state: &mut InstallState)
    ensures
        final(state)@ == failed(old(state)@, error@, tick),
{
    state.error = Some(error);
    close_soon(tick, state);
}

fn close_soon(tick: u64, state: &mut InstallState)
    ensures
        final(state)@ == over(old(state)@, tick),
{
    state.done = true;
    state.auto_close_secs = Some(5);
    state.auto_close_start = Some(tick);
}

/// The state in which a setup begins: the command stands in the log.
pub open spec fn begun(st: InstallModel, cmd: CommandModel, now: Seq<char>) -> InstallModel {
    InstallModel { log: st.log.push(stamped(now, "▶ "@ + command_text(cmd))), ..st }
}

/// Begins a run of the command, at the time of day `now`.
pub fn spawn_at(
    cmd: &CommandLine,
    label: &str,
    parse: bool,
    now: &str,
    state: &mut InstallState,
) -> (r: Runner)
    ensures
        r.label@ == label@ && r.parse == parse && r.offset == 0 && r.stage == Stage::Opening,
        final(state)@ == begun(old(state)@, cmd@, now@),
{
    let shown = show_command(cmd);
    let text = "▶ ".to_owned().concat(shown.as_str());
    state.note_at(now, text.as_str());
    Runner { label: label.to_owned(), parse, offset: 0, stage: Stage::Opening }
}

/// Begins a run of the command.
pub fn spawn_subprocess_with_args(
    cmd: &CommandLine,
    label: &str,
    parse: bool,
    state: &mut InstallState,
) -> (r: Runner)
    ensures
        r.label@ == label@ && r.parse == parse && r.offset == 0 && r.stage == Stage::Opening,
        exists|now: Seq<char>|
            is_stamp(now) && final(state)@ == #[trigger] begun(old(state)@, cmd@, now),
{
    let now = chrono_stamp();
    spawn_at(cmd, label, parse, now.as_str(), state)
}

/// Begins to run the setup script of an application, at the time of day `now`:
/// the command, and the run, whose output is only put into the log.
pub fn spawn_setup_init_at(
    platform: Platform,
    script: &str,
    has_script_tool: bool,
    now: &str,
    state: &mut InstallState,
) -> (r: (CommandLine, Runner))
    ensures
        r.0@ == setup_command(platform, script@, has_script_tool),
        r.1.label@ == "setup-init"@ && !r.1.parse && r.1.offset == 0 && r.1.stage
            == Stage::Opening,
        final(state)@ == begun(
            old(state)@,
            setup_command(platform, script@, has_script_tool),
            now@,
        ),
{
    let cmd = script_command(platform, script, has_script_tool);
    let runner = spawn_at(&cmd, "setup-init", false, now, state);
    (cmd, runner)
}

/// Begins to run the setup script of an application, at the path `script`;
/// `has_script_tool` tells whether there is a `/usr/bin/script`.
pub fn spawn_setup_init(
    platform: Platform,
    script: &str,
    has_script_tool: bool,
    state: &mut InstallState,
) -> (r: (CommandLine, Runner))
    ensures
        r.0@ == setup_command(platform, script@, has_script_tool),
        r.1.label@ == "setup-init"@ && !r.1.parse && r.1.offset == 0 && r.1.stage
            == Stage::Opening,
        exists|now: Seq<char>|
            is_stamp(now) && final(state)@ == #[trigger] begun(
                old(state)@,
                setup_command(platform, script@, has_script_tool),
                now,
            ),
{
    let now = chrono_stamp();
    spawn_setup_init_at(platform, script, has_script_tool, now.as_str(), state)
}

impl Runner {
    /// Whether an event is one that can come now.
    pub fn takes(&self, event: &Event) -> (r: bool)
        ensures
            r == fits(self.stage, *event),
    {
        match (self.stage, event) {
            (Stage::Opening, Event::Opened { .. }) => true,
            (Stage::Starting, Event::Started { .. }) => true,
            (Stage::Watching { .. }, Event::Polled { .. }) => true,
            (Stage::Reading, Event::Read { .. }) => true,
            (Stage::Draining, Event::Read { .. }) => true,
            (Stage::Complaints, Event::Complained { .. }) => true,
            (Stage::Closing, Event::Ended { .. }) => true,
            _ => false,
        }
    }

    /// Whether the run and the state have room for an event.
    pub fn room_for(&self, event: &Event, state: &InstallState) -> (r: bool)
        ensures
            r == has_room(self.parse, self.offset, *event, *state),
    {
        match event {
            Event::Read { output: Some(o) } => {
                let ls = lines_of(o.text.as_str());
                let bytes: &[u8] = o.text.as_str().as_bytes();
                assert(ls@.len() == lines(o.text@).len());
                if o.readings.len() != ls.len() || bytes.len() as u64 > u64::MAX - self.offset {
                    false
                } else if self.parse {
                    end_count(&ls) <= usize::MAX - state.current_idx
                } else {
                    true
                }
            },
            _ => true,
        }
    }

    /// What is to be done next.
    pub fn task(&self) -> (r: Task)
        ensures
            r == task_of(self.stage, self.offset),
    {
        match self.stage {
            Stage::Opening => Task::OpenFiles,
            Stage::Starting => Task::Start,
            Stage::Watching { again } => {
                let wait_ms: u64 = if again {
                    200
                } else {
                    0
                };
                Task::Poll { wait_ms }
            },
            Stage::Reading => Task::ReadOutput { from: self.offset },
            Stage::Draining => Task::ReadOutput { from: self.offset },
            Stage::Complaints => Task::ReadErrors,
            Stage::Closing => Task::CleanUp,
            Stage::Over => Task::Stop,
        }
    }

    /// Takes what came of the task.
    pub fn advance(&mut self, event: Event, state: &mut InstallState)
        requires
            fits(old(self).stage, event),
            has_room(old(self).parse, old(self).offset, event, *old(state)),
        ensures
            final(self).label == old(self).label,
            final(self).parse == old(self).parse,
            final(self).stage == next_stage(old(self).stage, event),
            final(self).offset == next_offset(old(self).offset, event),
            moves(old(self).label@, old(self).parse, event, old(state)@, final(state)@),
    {
        match event {
            Event::Opened { path, failure } => match failure {
                Some(f) => {
                    let text = "Impossible de créer ".to_owned().concat(path.as_str()).concat(
                        ": ",
                    ).concat(f.reason.as_str());
                    fail_at(text, f.tick, state);
                    self.stage = Stage::Over;
                },
                None => {
                    self.stage = Stage::Starting;
                },
            },
            Event::Started { refusal } => match refusal {
                Some(f) => {
                    let hint: &str = match f.code {
                        Some(6) => {
                            " (ENXIO : le binaire tente d'accéder à /dev/tty — essayez de le lancer depuis un terminal)"
                        },
                        _ => "",
                    };
                    let text = "Lancement impossible : ".to_owned().concat(
                        f.reason.as_str(),
                    ).concat(hint);
                    fail_at(text, f.tick, state);
                    self.stage = Stage::Over;
                },
                None => {
                    self.stage = Stage::Watching { again: false };
                },
            },
            Event::Polled { poll } => {
                self.stage = match poll {
                    Poll::Running => Stage::Reading,
                    _ => Stage::Draining,
                };
            },
            Event::Read { output } => {
                if let Some(o) = output {
                    self.offset = read_new_lines(
                        o.text.as_str(),
                        self.offset,
                        self.parse,
                        &o.readings,
                        state,
                    );
                }
                self.stage = match self.stage {
                    Stage::Reading => Stage::Watching { again: true },
                    _ => Stage::Complaints,
                };
            },
            Event::Complained { errors } => {
                if let Some(text) = errors {
                    note_complaints(text.as_str(), state);
                }
                self.stage = Stage::Closing;
            },
            Event::Ended { success, tick } => {
                let now = chrono_stamp();
                end_at(self.label.as_str(), success, tick, now.as_str(), state);
                self.stage = Stage::Over;
            },
        }
    }
}

// ── Laws ──────────────────────────────────────────────────────────────────────

/// Complaints change the log alone.
proof fn lemma_complaints_only_log(st: InstallModel, ls: Seq<Seq<char>>, stamps: Seq<Seq<char>>)
    ensures
        ({
            let a = after_complaints(st, ls, stamps);
            &&& a == InstallModel { log: a.log, ..st }
            &&& st.log.is_prefix_of(a.log)
        }),
    decreases ls.len(),
{
    if ls.len() > 0 {
        lemma_complaints_only_log(st, ls.drop_last(), stamps);
    }
}

/// A setup is done exactly when its run is over, and exactly then its panel is
/// set to close, in five seconds: if that holds before an event, it holds after
/// it. Until then there is no error. The log only grows.
pub proof fn law_done_when_over(
    stage: Stage,
    label: Seq<char>,
    parse: bool,
    event: Event,
    st: InstallModel,
    after: InstallModel,
)
    requires
        fits(stage, event),
        moves(label, parse, event, st, after),
        !st.done,
        st.error is None,
        st.auto_close_secs is None,
        st.auto_close_start is None,
    ensures
        after.done == (next_stage(stage, event) is Over),
        after.done == (after.auto_close_secs is Some),
        after.done == (after.auto_close_start is Some),
        after.done ==> after.auto_close_secs == Some(5u32),
        !after.done ==> after.error is None,
        st.log.is_prefix_of(after.log),
{
    match event {
        Event::Read { output: Some(o) } => {
            lemma_took(st, o.text@, parse, reading_models(o.readings@), after);
        },
        Event::Complained { errors: Some(text) } => {
            let ls = lines(text@);
            let stamps = choose|stamps: Seq<Seq<char>>|
                are_stamps(stamps, ls.len()) && after == #[trigger] after_complaints(
                    st,
                    ls,
                    stamps,
                );
            lemma_complaints_only_log(st, ls, stamps);
        },
        _ => {},
    }
}

/// Output does not decide how the setup ends, and the log only grows; where it
/// is not obeyed, it changes the log alone.
proof fn lemma_took(
    st: InstallModel,
    output: Seq<char>,
    parse: bool,
    readings: Seq<Option<ReadingModel>>,
    after: InstallModel,
)
    requires
        took(st, output, parse, readings, after),
    ensures
        after.done == st.done && after.error == st.error,
        after.auto_close_secs == st.auto_close_secs,
        after.auto_close_start == st.auto_close_start,
        st.log.is_prefix_of(after.log),
        !parse ==> after == (InstallModel { log: after.log, ..st }),
{
    let ls = lines(output);
    let stamps = choose|stamps: Seq<Seq<char>>|
        are_stamps(stamps, ls.len()) && after == #[trigger] after_output(
            st,
            ls,
            parse,
            readings,
            stamps,
        );
    if parse {
        law_output_counts(st, ls, readings, stamps);
    } else {
        law_plain_output_only_logs(st, ls, readings, stamps);
    }
}

/// A run: the events that came, and the stages and the states of the setup
/// between them.
pub open spec fn is_run(
    label: Seq<char>,
    parse: bool,
    stages: Seq<Stage>,
    states: Seq<InstallModel>,
    events: Seq<Event>,
) -> bool {
    &&& stages.len() == events.len() + 1
    &&& states.len() == events.len() + 1
    &&& stages[0] == Stage::Opening
    &&& forall|i: int|
        0 <= i < events.len() ==> fits(stages[i], #[trigger] events[i]) && stages[i + 1]
            == next_stage(stages[i], events[i]) && moves(
            label,
            parse,
            events[i],
            states[i],
            states[i + 1],
        )
}

/// Nothing is known yet of how the setup ended.
pub open spec fn is_unfinished(st: InstallModel) -> bool {
    !st.done && st.error is None && st.auto_close_secs is None && st.auto_close_start is None
}

/// At every moment of a run, the setup is done exactly where the run is over,
/// and exactly where its panel is set to close; there is no error before.
pub proof fn law_done_at_any_moment(
    label: Seq<char>,
    parse: bool,
    stages: Seq<Stage>,
    states: Seq<InstallModel>,
    events: Seq<Event>,
    n: int,
)
    requires
        is_run(label, parse, stages, states, events),
        is_unfinished(states[0]),
        0 <= n < states.len(),
    ensures
        states[n].done == (stages[n] is Over),
        states[n].done == (states[n].auto_close_secs is Some),
        states[n].done == (states[n].auto_close_start is Some),
        !states[n].done ==> states[n].error is None,
        states[0].log.is_prefix_of(states[n].log),
    decreases n,
{
    if n > 0 {
        law_done_at_any_moment(label, parse, stages, states, events, n - 1);
        let event = events[n - 1];
        assert(fits(stages[n - 1], event));
        assert(moves(label, parse, event, states[n - 1], states[n - 1 + 1]));
        law_done_when_over(stages[n - 1], label, parse, event, states[n - 1], states[n]);
    }
}

/// A run whose output is not obeyed, such as that of a setup script, leaves the
/// files and the progress as they were, whatever the program prints; and where
/// the program has ended, the last entry of the log names the run.
pub proof fn law_unparsed_run_only_logs(
    label: Seq<char>,
    stages: Seq<Stage>,
    states: Seq<InstallModel>,
    events: Seq<Event>,
    n: int,
)
    requires
        is_run(label, false, stages, states, events),
        0 <= n < states.len(),
    ensures
        states[n].files == states[0].files,
        states[n].current_idx == states[0].current_idx,
        states[n].current_percent == states[0].current_percent,
        n > 0 ==> (events[n - 1] matches Event::Ended { success, tick } ==> exists|now: Seq<char>|
            is_stamp(now) && states[n].log.len() > 0 && states[n].log.last()
                == #[trigger] stamped(now, end_text(label, success))),
    decreases n,
{
    if n > 0 {
        law_unparsed_run_only_logs(label, stages, states, events, n - 1);
        let event = events[n - 1];
        let st = states[n - 1];
        let after = states[n];
        assert(moves(label, false, event, st, states[n - 1 + 1]));
        match event {
            Event::Read { output: Some(o) } => {
                lemma_took(st, o.text@, false, reading_models(o.readings@), after);
            },
            Event::Complained { errors: Some(text) } => {
                let ls = lines(text@);
                let stamps = choose|stamps: Seq<Seq<char>>|
                    are_stamps(stamps, ls.len()) && after == #[trigger] after_complaints(
                        st,
                        ls,
                        stamps,
                    );
                lemma_complaints_only_log(st, ls, stamps);
            },
            Event::Ended { success, tick } => {
                let now = choose|now: Seq<char>|
                    is_stamp(now) && after == #[trigger] ended(st, label, success, tick, now);
                assert(after.log.last() == stamped(now, end_text(label, success)));
            },
            _ => {},
        }
    }
}

/// The directory for the files of a run is not on the drive, as long as the
/// drive does not hold `/tmp` itself.
pub proof fn law_run_dir_is_off_the_drive(
    platform: Platform,
    tmp_exists: bool,
    system: Seq<char>,
    root: Seq<char>,
)
    requires
        platform != Platform::Windows && tmp_exists ==> !is_within(platform, "/tmp"@, root),
    ensures
        tmp_of(platform, tmp_exists, system, root) matches Ok(dir) ==> !is_within(
            platform,
            dir,
            root,
        ),
{
}

/// How far a stage is from the beginning.
pub open spec fn rank(stage: Stage) -> int {
    match stage {
        Stage::Opening => 0,
        Stage::Starting => 1,
        Stage::Watching { .. } => 2,
        Stage::Reading => 2,
        Stage::Draining => 3,
        Stage::Complaints => 4,
        Stage::Closing => 5,
        Stage::Over => 6,
    }
}

/// A run never goes back, and goes on with each event but while the program
/// runs.
pub proof fn law_run_goes_on(stage: Stage, event: Event)
    requires
        fits(stage, event),
    ensures
        rank(next_stage(stage, event)) >= rank(stage),
        rank(next_stage(stage, event)) > rank(stage) || stage is Reading || (event matches
            Event::Polled { poll } && poll is Running),
{
}

/// The two files of a run are not the same.
pub proof fn law_files_differ(label: Seq<char>)
    ensures
        "baluchon_"@ + label + "_out.txt"@ != "baluchon_"@ + label + "_err.txt"@,
{
    reveal_strlit("_out.txt");
    reveal_strlit("_err.txt");
    let head = "baluchon_"@ + label;
    let out = head + "_out.txt"@;
    let err = head + "_err.txt"@;
    assert(out[head.len() as int + 1] == 'o');
    assert(err[head.len() as int + 1] == 'e');
}

} // verus!
