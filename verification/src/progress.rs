//! What is known of a running setup, and how the lines that it prints change it.
//!
//! A line of the setup assistant is one of
//!
//! ```text
//! FILE <name> <dest> [<size_MiB>]
//! PROGRESS <percent>
//! DONE <name> <size_MiB> <secs>
//! FAIL <name> <message>
//! LOG <message>
//! ```
//!
//! and a `LOG` line, like any line of another form, is kept as it is.
use vstd::prelude::*;

use crate::clock::{chrono_stamp, entry, is_stamp, stamped};
use crate::scan::{blank, joined, lemma_words_count, lines_of, number, parse_u32, words};
use crate::text::{decimal, is_blank, join, lines, opt_text, same_text, split_words, texts, u32_of};

verus! {

// ── Data ──────────────────────────────────────────────────────────────────────

/// A number with a fraction, as it was read: the bits of the single-precision
/// value, and that value in decimal notation, rounded to a whole number and to
/// one decimal.
#[derive(Debug)]
pub struct Reading {
    pub bits: u32,
    pub rounded: String,
    pub tenths: String,
}

#[derive(Debug)]
pub enum FileStatus {
    Pending,
    Downloading { percent: Reading },
    Done { mib: Reading, secs: u32 },
    Failed(String),
}

/// A file that the setup announced.
#[derive(Debug)]
pub struct DownloadFile {
    pub name: String,
    pub dest: String,
    pub size_mib: Option<Reading>,
    pub status: FileStatus,
}

/// The state of a setup that runs or has run.
#[derive(Debug)]
pub struct InstallState {
    pub files: Vec<DownloadFile>,
    /// The file that is being downloaded.
    pub current_idx: usize,
    /// How much of it is there, in percent.
    pub current_percent: Reading,
    pub log: Vec<String>,
    pub done: bool,
    pub error: Option<String>,
    /// Seconds before the panel closes by itself; none as long as the setup has
    /// not ended.
    pub auto_close_secs: Option<u32>,
    /// When those began, in nanoseconds on a clock that only goes forward.
    pub auto_close_start: Option<u64>,
}

/// A line of the setup assistant.
#[derive(Debug)]
pub enum Line {
    File { name: String, dest: String, size: Option<String> },
    Progress { percent: String },
    Done { name: String, mib: String, secs: String },
    Fail { name: String, message: String },
    Raw,
}

// ── Models ────────────────────────────────────────────────────────────────────

#[verifier::ext_equal]
pub struct ReadingModel {
    pub bits: u32,
    pub rounded: Seq<char>,
    pub tenths: Seq<char>,
}

#[verifier::ext_equal]
pub enum StatusModel {
    Pending,
    Downloading { percent: ReadingModel },
    Done { mib: ReadingModel, secs: u32 },
    Failed(Seq<char>),
}

#[verifier::ext_equal]
pub struct FileModel {
    pub name: Seq<char>,
    pub dest: Seq<char>,
    pub size_mib: Option<ReadingModel>,
    pub status: StatusModel,
}

#[verifier::ext_equal]
pub struct InstallModel {
    pub files: Seq<FileModel>,
    pub current_idx: int,
    pub current_percent: ReadingModel,
    pub log: Seq<Seq<char>>,
    pub done: bool,
    pub error: Option<Seq<char>>,
    pub auto_close_secs: Option<u32>,
    pub auto_close_start: Option<u64>,
}

#[verifier::ext_equal]
pub enum LineModel {
    File { name: Seq<char>, dest: Seq<char>, size: Option<Seq<char>> },
    Progress { percent: Seq<char> },
    Done { name: Seq<char>, mib: Seq<char>, secs: Seq<char> },
    Fail { name: Seq<char>, message: Seq<char> },
    Raw,
}

impl View for Reading {
    type V = ReadingModel;

    open spec fn view(&self) -> ReadingModel {
        ReadingModel { bits: self.bits, rounded: self.rounded@, tenths: self.tenths@ }
    }
}

impl View for FileStatus {
    type V = StatusModel;

    open spec fn view(&self) -> StatusModel {
        match *self {
            FileStatus::Pending => StatusModel::Pending,
            FileStatus::Downloading { percent } => StatusModel::Downloading { percent: percent@ },
            FileStatus::Done { mib, secs } => StatusModel::Done { mib: mib@, secs },
            FileStatus::Failed(message) => StatusModel::Failed(message@),
        }
    }
}

/// The reading that there is, if there is one.
pub open spec fn opt_reading(r: Option<Reading>) -> Option<ReadingModel> {
    match r {
        Some(r) => Some(r@),
        None => None,
    }
}

impl View for DownloadFile {
    type V = FileModel;

    open spec fn view(&self) -> FileModel {
        FileModel {
            name: self.name@,
            dest: self.dest@,
            size_mib: opt_reading(self.size_mib),
            status: self.status@,
        }
    }
}

/// The models of a list of files.
pub open spec fn file_models(files: Seq<DownloadFile>) -> Seq<FileModel> {
    files.map_values(|f: DownloadFile| f@)
}

impl View for InstallState {
    type V = InstallModel;

    open spec fn view(&self) -> InstallModel {
        InstallModel {
            files: file_models(self.files@),
            current_idx: self.current_idx as int,
            current_percent: self.current_percent@,
            log: texts(self.log@),
            done: self.done,
            error: opt_text(self.error),
            auto_close_secs: self.auto_close_secs,
            auto_close_start: self.auto_close_start,
        }
    }
}

impl View for Line {
    type V = LineModel;

    open spec fn view(&self) -> LineModel {
        match *self {
            Line::File { name, dest, size } => LineModel::File {
                name: name@,
                dest: dest@,
                size: opt_text(size),
            },
            Line::Progress { percent } => LineModel::Progress { percent: percent@ },
            Line::Done { name, mib, secs } => LineModel::Done {
                name: name@,
                mib: mib@,
                secs: secs@,
            },
            Line::Fail { name, message } => LineModel::Fail { name: name@, message: message@ },
            Line::Raw => LineModel::Raw,
        }
    }
}

/// The reading of zero.
pub open spec fn zero_reading() -> ReadingModel {
    ReadingModel { bits: 0, rounded: "0"@, tenths: "0.0"@ }
}

/// A reading, or zero where there is none.
pub open spec fn or_zero(r: Option<ReadingModel>) -> ReadingModel {
    match r {
        Some(r) => r,
        None => zero_reading(),
    }
}

/// A setup of which nothing is known yet.
pub open spec fn fresh() -> InstallModel {
    InstallModel {
        files: Seq::empty(),
        current_idx: 0,
        current_percent: zero_reading(),
        log: Seq::empty(),
        done: false,
        error: None,
        auto_close_secs: None,
        auto_close_start: None,
    }
}

/// How many of the files are downloaded.
pub open spec fn count_done(files: Seq<FileModel>) -> nat
    decreases files.len(),
{
    if files.len() == 0 {
        0
    } else {
        count_done(files.drop_last()) + if files.last().status is Done {
            1nat
        } else {
            0
        }
    }
}

/// How many of the files failed.
pub open spec fn count_failed(files: Seq<FileModel>) -> nat
    decreases files.len(),
{
    if files.len() == 0 {
        0
    } else {
        count_failed(files.drop_last()) + if files.last().status is Failed {
            1nat
        } else {
            0
        }
    }
}

/// Where the first file of that name stands, or the number of files.
pub open spec fn first_named(files: Seq<FileModel>, name: Seq<char>) -> int
    decreases files.len(),
{
    if files.len() == 0 || files[0].name == name {
        0
    } else {
        1 + first_named(files.skip(1), name)
    }
}

/// The files with another status at `i`, where there is a file.
pub open spec fn with_status(files: Seq<FileModel>, i: int, status: StatusModel) -> Seq<FileModel> {
    if 0 <= i < files.len() {
        files.update(i, FileModel { status, ..files[i] })
    } else {
        files
    }
}

/// What a line says: its first word decides, together with how many words there
/// are. At most five words are told apart; the fifth is the rest of the line.
pub open spec fn line_of(line: Seq<char>) -> LineModel {
    let p = split_words(line, 5);
    if p.len() >= 3 && p[0] == "FILE"@ {
        LineModel::File {
            name: p[1],
            dest: p[2],
            size: if p.len() >= 4 {
                Some(p[3])
            } else {
                None
            },
        }
    } else if p.len() == 2 && p[0] == "PROGRESS"@ {
        LineModel::Progress { percent: p[1] }
    } else if p.len() == 4 && p[0] == "DONE"@ {
        LineModel::Done { name: p[1], mib: p[2], secs: p[3] }
    } else if p.len() >= 2 && p[0] == "FAIL"@ {
        LineModel::Fail { name: p[1], message: join(p.skip(2), " "@) }
    } else {
        LineModel::Raw
    }
}

/// The number with a fraction that a line holds, if it holds one.
pub open spec fn numeral_of(line: LineModel) -> Option<Seq<char>> {
    match line {
        LineModel::File { name, dest, size } => size,
        LineModel::Progress { percent } => Some(percent),
        LineModel::Done { name, mib, secs } => Some(mib),
        _ => None,
    }
}

/// What the log says of a file that is there.
pub open spec fn done_entry(mib: Seq<char>, secs: u32) -> Seq<char> {
    "✅ OK ("@ + mib + " MiB en "@ + decimal(secs as nat) + "s)"@
}

/// What the log says of a file that failed.
pub open spec fn fail_entry(name: Seq<char>, message: Seq<char>) -> Seq<char> {
    "❌ FAIL "@ + name + " : "@ + message
}

/// The seconds that a line gives, zero where it gives none.
pub open spec fn secs_of(s: Seq<char>) -> u32 {
    match u32_of(s) {
        Some(n) => n,
        None => 0,
    }
}

/// The state after a line. `reading` is what the number of the line was read
/// as, if it has one and that one can be read; `now` is the time of day.
pub open spec fn after_line(
    st: InstallModel,
    line: Seq<char>,
    reading: Option<ReadingModel>,
    now: Seq<char>,
) -> InstallModel {
    match line_of(line) {
        LineModel::File { name, dest, size } => InstallModel {
            files: st.files.push(
                FileModel {
                    name,
                    dest,
                    size_mib: if size is Some {
                        reading
                    } else {
                        None
                    },
                    status: StatusModel::Pending,
                },
            ),
            ..st
        },
        LineModel::Progress { percent } => InstallModel {
            current_percent: or_zero(reading),
            files: with_status(
                st.files,
                st.current_idx,
                StatusModel::Downloading { percent: or_zero(reading) },
            ),
            ..st
        },
        LineModel::Done { name, mib, secs } => InstallModel {
            files: with_status(
                st.files,
                first_named(st.files, name),
                StatusModel::Done { mib: or_zero(reading), secs: secs_of(secs) },
            ),
            current_idx: st.current_idx + 1,
            current_percent: zero_reading(),
            log: st.log.push(
                stamped(now, done_entry(or_zero(reading).rounded, secs_of(secs))),
            ),
            ..st
        },
        LineModel::Fail { name, message } => InstallModel {
            files: with_status(
                st.files,
                first_named(st.files, name),
                StatusModel::Failed(message),
            ),
            current_idx: st.current_idx + 1,
            current_percent: zero_reading(),
            log: st.log.push(stamped(now, fail_entry(name, message))),
            ..st
        },
        LineModel::Raw => if is_blank(line) {
            st
        } else {
            InstallModel { log: st.log.push(stamped(now, line)), ..st }
        },
    }
}

/// A line that ends the download of a file.
pub open spec fn ends_file(line: Seq<char>) -> bool {
    line_of(line) is Done || line_of(line) is Fail
}

/// The state after a line of the output: a blank line changes nothing; any
/// other is obeyed where the output is that of the assistant, and else kept.
pub open spec fn after_output_line(
    st: InstallModel,
    line: Seq<char>,
    parse: bool,
    reading: Option<ReadingModel>,
    now: Seq<char>,
) -> InstallModel {
    if is_blank(line) {
        st
    } else if parse {
        after_line(st, line, reading, now)
    } else {
        InstallModel { log: st.log.push(stamped(now, line)), ..st }
    }
}

/// The state after several lines of the output, each with the reading of its
/// number and the time at which it was taken.
pub open spec fn after_output(
    st: InstallModel,
    ls: Seq<Seq<char>>,
    parse: bool,
    readings: Seq<Option<ReadingModel>>,
    stamps: Seq<Seq<char>>,
) -> InstallModel
    decreases ls.len(),
{
    if ls.len() == 0 {
        st
    } else {
        after_output_line(
            after_output(st, ls.drop_last(), parse, readings, stamps),
            ls.last(),
            parse,
            readings[ls.len() - 1],
            stamps[ls.len() - 1],
        )
    }
}

/// One time of day for each line.
pub open spec fn are_stamps(stamps: Seq<Seq<char>>, n: nat) -> bool {
    &&& stamps.len() == n
    &&& forall|i: int| 0 <= i < n ==> is_stamp(#[trigger] stamps[i])
}

/// The readings of a list.
pub open spec fn reading_models(readings: Seq<Option<Reading>>) -> Seq<Option<ReadingModel>> {
    readings.map_values(|r: Option<Reading>| opt_reading(r))
}

/// What taking in output comes to: the state `after` is that after its lines,
/// each taken at some time of day.
pub open spec fn took(
    st: InstallModel,
    output: Seq<char>,
    parse: bool,
    readings: Seq<Option<ReadingModel>>,
    after: InstallModel,
) -> bool {
    exists|stamps: Seq<Seq<char>>|
        are_stamps(stamps, lines(output).len()) && after == #[trigger] after_output(
            st,
            lines(output),
            parse,
            readings,
            stamps,
        )
}

/// How many of the lines end the download of a file.
pub open spec fn count_ends(ls: Seq<Seq<char>>) -> nat
    decreases ls.len(),
{
    if ls.len() == 0 {
        0
    } else {
        count_ends(ls.drop_last()) + if ends_file(ls.last()) {
            1nat
        } else {
            0
        }
    }
}

/// How many of the lines announce a file.
pub open spec fn count_files(ls: Seq<Seq<char>>) -> nat
    decreases ls.len(),
{
    if ls.len() == 0 {
        0
    } else {
        count_files(ls.drop_last()) + if line_of(ls.last()) is File {
            1nat
        } else {
            0
        }
    }
}

// ── Reading lines ─────────────────────────────────────────────────────────────

/// The first file of that name, or the number of files.
fn find_file(files: &Vec<DownloadFile>, name: &str) -> (r: usize)
    ensures
        r == first_named(file_models(files@), name@),
        r <= files@.len(),
{
    let ghost all = file_models(files@);
    let mut i: usize = 0;
    while i < files.len() && !same_text(files[i].name.as_str(), name)
        invariant
            all == file_models(files@),
            i <= files@.len(),
            forall|j: int| 0 <= j < i ==> (#[trigger] all[j]).name != name@,
        decreases files@.len() - i,
    {
        i += 1;
    }
    proof {
        lemma_first_named(all, name@, i as int);
    }
    i
}

/// A position before which no file has the name, and at which one has it unless
/// it is the end, is that of the first file of that name.
proof fn lemma_first_named(files: Seq<FileModel>, name: Seq<char>, k: int)
    requires
        0 <= k <= files.len(),
        forall|j: int| 0 <= j < k ==> (#[trigger] files[j]).name != name,
        k < files.len() ==> files[k].name == name,
    ensures
        first_named(files, name) == k,
    decreases k,
{
    if k > 0 {
        let t = files.skip(1);
        assert(files[0].name != name);
        assert forall|j: int| 0 <= j < k - 1 implies (#[trigger] t[j]).name != name by {
            assert(t[j] == files[j + 1]);
        }
        lemma_first_named(t, name, k - 1);
    }
}

/// What a line says.
pub fn read_line(line: &str) -> (r: Line)
    ensures
        r@ == line_of(line@),
{
    let parts = words(line, 5);
    let ghost p = split_words(line@, 5);
    proof {
        lemma_words_count(line@, 5);
        assert(parts@.len() == p.len());
        assert forall|i: int| 0 <= i < p.len() implies (#[trigger] parts@[i])@ == p[i] by {
            assert(texts(parts@)[i] == parts@[i]@);
        }
    }
    let n: usize = parts.len();
    let word: &str = parts[0].as_str();
    if n >= 3 && same_text(word, "FILE") {
        let size: Option<String> = if n >= 4 {
            Some(parts[3].clone())
        } else {
            None
        };
        Line::File { name: parts[1].clone(), dest: parts[2].clone(), size }
    } else if n == 2 && same_text(word, "PROGRESS") {
        Line::Progress { percent: parts[1].clone() }
    } else if n == 4 && same_text(word, "DONE") {
        Line::Done { name: parts[1].clone(), mib: parts[2].clone(), secs: parts[3].clone() }
    } else if n >= 2 && same_text(word, "FAIL") {
        Line::Fail { name: parts[1].clone(), message: joined(&parts, 2, " ") }
    } else {
        Line::Raw
    }
}

/// The number with a fraction that a line holds, if it holds one: what has to
/// be read before `parse_line` is called on the line.
pub fn numeral(line: &str) -> (r: Option<String>)
    ensures
        opt_text(r) == numeral_of(line_of(line@)),
{
    match read_line(line) {
        Line::File { name: _, dest: _, size } => size,
        Line::Progress { percent } => Some(percent),
        Line::Done { name: _, mib, secs: _ } => Some(mib),
        _ => None,
    }
}

impl Reading {
    /// The reading of zero.
    pub fn zero() -> (r: Reading)
        ensures
            r@ == zero_reading(),
    {
        Reading { bits: 0, rounded: "0".to_owned(), tenths: "0.0".to_owned() }
    }

    /// The same reading once more.
    pub fn copy(&self) -> (r: Reading)
        ensures
            r@ == self@,
    {
        Reading { bits: self.bits, rounded: self.rounded.clone(), tenths: self.tenths.clone() }
    }
}

/// A reading, or zero where there is none.
fn reading_or_zero(r: Option<Reading>) -> (z: Reading)
    ensures
        z@ == or_zero(opt_reading(r)),
{
    match r {
        Some(r) => r,
        None => Reading::zero(),
    }
}

/// Gives the file at `i` another status, where there is a file.
fn set_status(files: &mut Vec<DownloadFile>, i: usize, status: FileStatus)
    ensures
        file_models(final(files)@) == with_status(file_models(old(files)@), i as int, status@),
{
    if i < files.len() {
        files[i].status = status;
        assert(file_models(files@) =~= with_status(
            file_models(old(files)@),
            i as int,
            status@,
        ));
    }
}

impl InstallState {
    /// A setup of which nothing is known yet.
    pub fn new() -> (r: InstallState)
        ensures
            r@ == fresh(),
    {
        let r = InstallState {
            files: Vec::new(),
            current_idx: 0,
            current_percent: Reading::zero(),
            log: Vec::new(),
            done: false,
            error: None,
            auto_close_secs: None,
            auto_close_start: None,
        };
        assert(r@.files =~= Seq::empty());
        assert(r@.log =~= Seq::empty());
        r
    }

    /// How many of the files are downloaded.
    pub fn done_count(&self) -> (r: usize)
        ensures
            r == count_done(self@.files),
    {
        let ghost all = self@.files;
        let mut n: usize = 0;
        let mut i: usize = 0;
        assert(all.take(0) =~= Seq::empty());
        while i < self.files.len()
            invariant
                all == file_models(self.files@),
                n <= i <= self.files@.len(),
                n == count_done(all.take(i as int)),
            decreases self.files@.len() - i,
        {
            assert(all.take(i + 1).drop_last() =~= all.take(i as int));
            assert(all[i as int] == self.files@[i as int]@);
            if let FileStatus::Done { .. } = &self.files[i].status {
                n += 1;
            }
            i += 1;
        }
        assert(all.take(i as int) =~= all);
        n
    }

    /// How many of the files failed.
    pub fn fail_count(&self) -> (r: usize)
        ensures
            r == count_failed(self@.files),
    {
        let ghost all = self@.files;
        let mut n: usize = 0;
        let mut i: usize = 0;
        assert(all.take(0) =~= Seq::empty());
        while i < self.files.len()
            invariant
                all == file_models(self.files@),
                n <= i <= self.files@.len(),
                n == count_failed(all.take(i as int)),
            decreases self.files@.len() - i,
        {
            assert(all.take(i + 1).drop_last() =~= all.take(i as int));
            assert(all[i as int] == self.files@[i as int]@);
            if let FileStatus::Failed(_) = &self.files[i].status {
                n += 1;
            }
            i += 1;
        }
        assert(all.take(i as int) =~= all);
        n
    }

    /// Adds an entry to the log, with the time `now` in front of it.
    pub fn note_at(&mut self, now: &str, text: &str)
        ensures
            final(self)@ == (InstallModel {
                log: old(self)@.log.push(stamped(now@, text@)),
                ..old(self)@
            }),
    {
        let ghost before = texts(self.log@);
        let line = entry(now, text);
        self.log.push(line);
        assert(texts(self.log@) =~= before.push(stamped(now@, text@)));
    }
}

/// Changes the state as a line of the setup assistant says. `reading` is what
/// the number of the line (see `numeral`) was read as, if it has one and that
/// one can be read; `now` is the time of day for the log.
pub fn parse_line_at(line: &str, reading: Option<Reading>, now: &str, state: &mut InstallState)
    requires
        ends_file(line@) ==> old(state).current_idx < usize::MAX,
    ensures
        final(state)@ == after_line(old(state)@, line@, opt_reading(reading), now@),
{
    let ghost before = state@;
    match read_line(line) {
        Line::File { name, dest, size } => {
            let size_mib: Option<Reading> = if size.is_some() {
                reading
            } else {
                None
            };
            let file = DownloadFile { name, dest, size_mib, status: FileStatus::Pending };
            let ghost added = file@;
            state.files.push(file);
            assert(file_models(state.files@) =~= before.files.push(added));
        },
        Line::Progress { .. } => {
            let percent = reading_or_zero(reading);
            let status = FileStatus::Downloading { percent: percent.copy() };
            state.current_percent = percent;
            set_status(&mut state.files, state.current_idx, status);
        },
        Line::Done { name, mib: _, secs } => {
            let mib = reading_or_zero(reading);
            let secs: u32 = match parse_u32(secs.as_str()) {
                Some(n) => n,
                None => 0,
            };
            let secs_text = number(secs as u64);
            let text = "✅ OK (".to_owned().concat(mib.rounded.as_str()).concat(" MiB en ").concat(
                secs_text.as_str(),
            ).concat("s)");
            let i: usize = find_file(&state.files, name.as_str());
            set_status(&mut state.files, i, FileStatus::Done { mib, secs });
            state.current_idx += 1;
            state.current_percent = Reading::zero();
            state.note_at(now, text.as_str());
        },
        Line::Fail { name, message } => {
            let text = "❌ FAIL ".to_owned().concat(name.as_str()).concat(" : ").concat(
                message.as_str(),
            );
            let i: usize = find_file(&state.files, name.as_str());
            set_status(&mut state.files, i, FileStatus::Failed(message));
            state.current_idx += 1;
            state.current_percent = Reading::zero();
            state.note_at(now, text.as_str());
        },
        Line::Raw => {
            if !blank(line) {
                state.note_at(now, line);
            }
        },
    }
}

/// Changes the state as a line of the setup assistant says, at the present time
/// of day.
pub fn parse_line(line: &str, reading: Option<Reading>, state: &mut InstallState)
    requires
        ends_file(line@) ==> old(state).current_idx < usize::MAX,
    ensures
        exists|now: Seq<char>|
            #![trigger after_line(old(state)@, line@, opt_reading(reading), now)]
            is_stamp(now) && final(state)@ == after_line(
                old(state)@,
                line@,
                opt_reading(reading),
                now,
            ),
{
    let now = chrono_stamp();
    parse_line_at(line, reading, now.as_str(), state);
}

// ── Reading output ────────────────────────────────────────────────────────────

/// For each line of the output, the number with a fraction that it holds, if it
/// holds one: what has to be read before `read_new_lines` is called on it.
pub fn numerals(output: &str) -> (r: Vec<Option<String>>)
    ensures
        r@.len() == lines(output@).len(),
        forall|i: int|
            0 <= i < r@.len() ==> opt_text(#[trigger] r@[i]) == numeral_of(
                line_of(lines(output@)[i]),
            ),
{
    let ls = lines_of(output);
    let mut out: Vec<Option<String>> = Vec::new();
    let mut i: usize = 0;
    assert(ls@.len() == lines(output@).len());
    while i < ls.len()
        invariant
            i <= ls@.len(),
            texts(ls@) == lines(output@),
            ls@.len() == lines(output@).len(),
            out@.len() == i,
            forall|j: int|
                0 <= j < i ==> opt_text(#[trigger] out@[j]) == numeral_of(
                    line_of(lines(output@)[j]),
                ),
        decreases ls@.len() - i,
    {
        assert(texts(ls@)[i as int] == ls@[i as int]@);
        let n = numeral(ls[i].as_str());
        out.push(n);
        i += 1;
    }
    out
}

/// The beginning of a list of lines ends no more files than the whole list.
pub proof fn lemma_count_ends_grows(ls: Seq<Seq<char>>, k: int)
    requires
        0 <= k <= ls.len(),
    ensures
        count_ends(ls.take(k)) <= count_ends(ls),
    decreases ls.len(),
{
    if k == ls.len() {
        assert(ls.take(k) =~= ls);
    } else {
        lemma_count_ends_grows(ls.drop_last(), k);
        assert(ls.drop_last().take(k) =~= ls.take(k));
    }
}

/// How many of the lines end the download of a file.
pub fn end_count(ls: &Vec<String>) -> (r: usize)
    ensures
        r == count_ends(texts(ls@)),
{
    let ghost all = texts(ls@);
    let mut n: usize = 0;
    let mut i: usize = 0;
    assert(all.take(0) =~= Seq::empty());
    while i < ls.len()
        invariant
            all == texts(ls@),
            n <= i <= ls@.len(),
            n == count_ends(all.take(i as int)),
        decreases ls@.len() - i,
    {
        assert(all.take(i + 1).drop_last() =~= all.take(i as int));
        assert(all[i as int] == ls@[i as int]@);
        match read_line(ls[i].as_str()) {
            Line::Done { .. } | Line::Fail { .. } => {
                n += 1;
            },
            _ => {},
        }
        i += 1;
    }
    assert(all.take(i as int) =~= all);
    n
}

/// What is read and stamped for later lines does not matter to earlier ones.
proof fn lemma_after_output_prefix(
    st: InstallModel,
    ls: Seq<Seq<char>>,
    parse: bool,
    readings: Seq<Option<ReadingModel>>,
    stamps: Seq<Seq<char>>,
    more: Seq<Seq<char>>,
)
    requires
        ls.len() <= stamps.len() <= more.len(),
        forall|i: int| 0 <= i < stamps.len() ==> stamps[i] == #[trigger] more[i],
    ensures
        after_output(st, ls, parse, readings, stamps) == after_output(
            st,
            ls,
            parse,
            readings,
            more,
        ),
    decreases ls.len(),
{
    if ls.len() > 0 {
        lemma_after_output_prefix(st, ls.drop_last(), parse, readings, stamps, more);
        assert(stamps[ls.len() - 1] == more[ls.len() - 1]);
    }
}

/// Takes in a line of the output, at the time of day `now`: passes over it where
/// it is blank, obeys it where `parse` is set, and else puts it into the log.
pub fn take_line_at(
    line: &str,
    parse: bool,
    reading: Option<Reading>,
    now: &str,
    state: &mut InstallState,
)
    requires
        parse && ends_file(line@) ==> old(state).current_idx < usize::MAX,
    ensures
        final(state)@ == after_output_line(
            old(state)@,
            line@,
            parse,
            opt_reading(reading),
            now@,
        ),
{
    if !blank(line) {
        if parse {
            parse_line_at(line, reading, now, state);
        } else {
            state.note_at(now, line);
        }
    }
}

/// Takes in the output that was read from the position `offset` on, line by
/// line, and gives the position behind it. Blank lines are passed over; the
/// others are obeyed where `parse` is set, and else put into the log.
/// `readings` holds what the numbers of the lines (see `numerals`) were read
/// as.
pub fn read_new_lines(
    output: &str,
    offset: u64,
    parse: bool,
    readings: &Vec<Option<Reading>>,
    state: &mut InstallState,
) -> (r: u64)
    requires
        readings@.len() == lines(output@).len(),
        offset + vstd::utf8::encode_utf8(output@).len() <= u64::MAX,
        parse ==> old(state).current_idx + count_ends(lines(output@)) <= usize::MAX,
    ensures
        r == offset + vstd::utf8::encode_utf8(output@).len(),
        took(old(state)@, output@, parse, reading_models(readings@), final(state)@),
{
    let ghost st0 = state@;
    let ghost all = lines(output@);
    let ghost read = reading_models(readings@);
    let ghost mut stamps: Seq<Seq<char>> = Seq::empty();
    let ls = lines_of(output);
    let mut i: usize = 0;
    assert(ls@.len() == all.len());
    assert(all.take(0) =~= Seq::empty());
    while i < ls.len()
        invariant
            i <= ls@.len(),
            texts(ls@) == all,
            ls@.len() == all.len(),
            all == lines(output@),
            readings@.len() == all.len(),
            read == reading_models(readings@),
            are_stamps(stamps, i as nat),
            state@ == after_output(st0, all.take(i as int), parse, read, stamps),
            parse ==> st0.current_idx + count_ends(all) <= usize::MAX,
            parse ==> state.current_idx <= st0.current_idx + count_ends(all.take(i as int)),
        decreases ls@.len() - i,
    {
        let ghost line = all[i as int];
        let ghost before = state@;
        assert(texts(ls@)[i as int] == ls@[i as int]@);
        assert(all.take(i + 1).drop_last() =~= all.take(i as int));
        assert(all.take(i + 1).last() == line);
        assert(read[i as int] == opt_reading(readings@[i as int]));
        proof {
            lemma_count_ends_grows(all, i + 1);
        }
        let reading: Option<Reading> = match &readings[i] {
            Some(r) => Some(r.copy()),
            None => None,
        };
        let now = chrono_stamp();
        take_line_at(ls[i].as_str(), parse, reading, now.as_str(), state);
        proof {
            let more = stamps.push(now@);
            assert forall|j: int| 0 <= j < i + 1 implies is_stamp(#[trigger] more[j]) by {
                if j < i {
                    assert(more[j] == stamps[j]);
                }
            }
            lemma_after_output_prefix(st0, all.take(i as int), parse, read, stamps, more);
            assert(state@ == after_output_line(before, line, parse, read[i as int], now@));
            stamps = more;
        }
        i += 1;
    }
    assert(all.take(i as int) =~= all);
    let bytes: &[u8] = output.as_bytes();
    offset + bytes.len() as u64
}

} // verus!
