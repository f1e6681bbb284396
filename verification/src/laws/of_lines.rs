//! What the lines of a setup do to its state.
use vstd::prelude::*;

use crate::laws::of_texts::lemma_words_hold_no_space;
use crate::laws::{
    is_word, law_done_line, law_fail_line, law_file_line, law_progress_line, law_sized_file_line,
    lemma_cut_last, lemma_cut_word, lemma_first_named_bounds, lemma_keywords,
};
use crate::progress::{
    after_line, after_output, after_output_line, are_stamps, count_done, count_failed, end_count,
    first_named, numeral, numerals, opt_reading, or_zero, parse_line,
    parse_line_at, read_line, read_new_lines, reading_models, take_line_at, took, DownloadFile,
    FileModel, FileStatus, InstallModel, InstallState, Line, LineModel, Reading, ReadingModel,
};
use crate::clock::is_stamp;
use crate::scan::{law_words_join_back, lemma_first_at, lemma_words_count, lines_of, parse_u32};
use crate::text::{decimal, is_blank, join, lines, split_words, texts};

verus! {

// ── Sameness ──────────────────────────────────────────────────────────────────

/// Two readings of the same number.
pub open spec fn same_reading(a: Reading, b: Reading) -> bool {
    a.bits == b.bits && a.rounded@ == b.rounded@ && a.tenths@ == b.tenths@
}

/// Two sizes that are the same, known or not.
pub open spec fn same_size(a: Option<Reading>, b: Option<Reading>) -> bool {
    match (a, b) {
        (Some(a), Some(b)) => same_reading(a, b),
        (None, None) => true,
        _ => false,
    }
}

pub open spec fn same_status(a: FileStatus, b: FileStatus) -> bool {
    match (a, b) {
        (FileStatus::Pending, FileStatus::Pending) => true,
        (FileStatus::Downloading { percent: x }, FileStatus::Downloading { percent: y }) => {
            same_reading(x, y)
        },
        (FileStatus::Done { mib: x, secs: s }, FileStatus::Done { mib: y, secs: t }) => {
            same_reading(x, y) && s == t
        },
        (FileStatus::Failed(x), FileStatus::Failed(y)) => x@ == y@,
        _ => false,
    }
}

/// Two files that are the same but for their status.
pub open spec fn same_announcement(a: DownloadFile, b: DownloadFile) -> bool {
    a.name@ == b.name@ && a.dest@ == b.dest@ && same_size(a.size_mib, b.size_mib)
}

pub open spec fn same_file(a: DownloadFile, b: DownloadFile) -> bool {
    same_announcement(a, b) && same_status(a.status, b.status)
}

/// The files of `b` stand in `a` as they are, but for the one at `i`.
pub open spec fn same_files_but(a: InstallState, b: InstallState, i: int) -> bool {
    &&& a.files@.len() >= b.files@.len()
    &&& forall|j: int|
        0 <= j < b.files@.len() && j != i ==> same_file(#[trigger] a.files@[j], b.files@[j])
}

/// The log of `b` stands in `a`, with `more` entries behind it.
pub open spec fn log_grown(a: InstallState, b: InstallState, more: int) -> bool {
    &&& a.log@.len() == b.log@.len() + more
    &&& forall|j: int| 0 <= j < b.log@.len() ==> (#[trigger] a.log@[j])@ == b.log@[j]@
}

/// The same is known of how the setup ended.
pub open spec fn same_end(a: InstallState, b: InstallState) -> bool {
    &&& a.done == b.done
    &&& a.error is Some == b.error is Some
    &&& a.error is Some ==> a.error->0@ == b.error->0@
    &&& a.auto_close_secs == b.auto_close_secs
    &&& a.auto_close_start == b.auto_close_start
}

/// A reading is that of the line, or of zero where the line has none.
pub open spec fn is_reading(r: Reading, reading: Option<Reading>) -> bool {
    match reading {
        Some(x) => same_reading(r, x),
        None => is_nought(r),
    }
}

/// The reading of zero.
pub open spec fn is_nought(r: Reading) -> bool {
    r.bits == 0 && r.rounded@ == "0"@ && r.tenths@ == "0.0"@
}

/// All that is known of the setup is the same.
pub open spec fn same_state(a: InstallState, b: InstallState) -> bool {
    &&& a.files@.len() == b.files@.len() && same_files_but(a, b, -1)
    &&& a.current_idx == b.current_idx
    &&& same_reading(a.current_percent, b.current_percent)
    &&& log_grown(a, b, 0)
    &&& same_end(a, b)
}

proof fn lemma_same_file(a: DownloadFile, b: DownloadFile)
    requires
        a@ == b@,
    ensures
        same_file(a, b),
{
    lemma_same_size(a.size_mib, b.size_mib);
    assert(a.status@ == b.status@);
}

proof fn lemma_same_size(a: Option<Reading>, b: Option<Reading>)
    requires
        opt_reading(a) == opt_reading(b),
    ensures
        same_size(a, b),
{
    if a is Some {
        assert(b is Some);
        assert(a->0@ == b->0@);
    }
}

proof fn lemma_is_reading(r: Reading, reading: Option<Reading>)
    requires
        r@ == or_zero(opt_reading(reading)),
    ensures
        is_reading(r, reading),
{
}

/// What the models of two states tell of the states: `n` entries of the log and
/// all files but that at `i` are the same.
proof fn lemma_from_models(a: InstallState, b: InstallState, i: int)
    requires
        a.files@.len() >= b.files@.len(),
        forall|j: int|
            0 <= j < b.files@.len() && j != i ==> #[trigger] a@.files[j] == b@.files[j],
        b@.log.is_prefix_of(a@.log),
    ensures
        same_files_but(a, b, i),
        log_grown(a, b, a.log@.len() - b.log@.len()),
        a@.done == b@.done && a@.error == b@.error && a@.auto_close_secs == b@.auto_close_secs
            && a@.auto_close_start == b@.auto_close_start ==> same_end(a, b),
{
    assert forall|j: int| 0 <= j < b.files@.len() && j != i implies same_file(
        #[trigger] a.files@[j],
        b.files@[j],
    ) by {
        assert(a@.files[j] == a.files@[j]@);
        assert(b@.files[j] == b.files@[j]@);
        lemma_same_file(a.files@[j], b.files@[j]);
    }
    assert(a@.log.len() == a.log@.len());
    assert(b@.log.len() == b.log@.len());
    assert forall|j: int| 0 <= j < b.log@.len() implies (#[trigger] a.log@[j])@ == b.log@[j]@ by {
        assert(a@.log[j] == a.log@[j]@);
        assert(b@.log[j] == b.log@[j]@);
        assert(b@.log[j] == a@.log[j]);
    }
}

// ── Reading a line ────────────────────────────────────────────────────────────

proof fn lemma_two(p: Seq<Seq<char>>, sep: Seq<char>)
    ensures
        p.len() == 2 ==> join(p, sep) == p[0] + sep + p[1],
        p.len() == 3 ==> join(p, sep) == p[0] + sep + (p[1] + sep + p[2]),
        p.len() == 4 ==> join(p, sep) == p[0] + sep + (p[1] + sep + (p[2] + sep + p[3])),
        p.len() == 5 ==> join(p, sep) == p[0] + sep + (p[1] + sep + (p[2] + sep + (p[3] + sep
            + p[4]))),
{
    reveal_with_fuel(join, 6);
    if p.len() >= 2 {
        assert(p.skip(1)[0] == p[1]);
    }
    if p.len() >= 3 {
        assert(p.skip(1).skip(1) =~= p.skip(2));
        assert(p.skip(2)[0] == p[2]);
    }
    if p.len() >= 4 {
        assert(p.skip(2).skip(1) =~= p.skip(3));
        assert(p.skip(3)[0] == p[3]);
    }
    if p.len() >= 5 {
        assert(p.skip(3).skip(1) =~= p.skip(4));
        assert(p.skip(4)[0] == p[4]);
    }
}

/// A line is read as what it is: what `read_line` finds in it, with its keyword
/// in front and single spaces between, is the line.
pub proof fn law_lines_are_what_they_are_read_as(line: &str, r: Line)
    requires
        call_ensures(read_line, (line,), r),
    ensures
        match r {
            Line::File { name, dest, size: None } => is_word(name@) && is_word(dest@) && line@
                == "FILE"@ + " "@ + (name@ + " "@ + dest@),
            Line::File { name, dest, size: Some(size) } => is_word(name@) && is_word(dest@)
                && is_word(size@) && (line@ == "FILE"@ + " "@ + (name@ + " "@ + (dest@ + " "@
                + size@)) || exists|rest: Seq<char>|
                line@ == #[trigger] ("FILE"@ + " "@ + (name@ + " "@ + (dest@ + " "@ + (size@ + " "@
                    + rest))))),
            Line::Progress { percent } => is_word(percent@) && line@ == "PROGRESS"@ + " "@
                + percent@,
            Line::Done { name, mib, secs } => is_word(name@) && is_word(mib@) && is_word(secs@)
                && line@ == "DONE"@ + " "@ + (name@ + " "@ + (mib@ + " "@ + secs@)),
            Line::Fail { name, message } => is_word(name@) && (line@ == "FAIL"@ + " "@ + (name@
                + " "@ + message@) || (line@ == "FAIL"@ + " "@ + name@ && message@.len() == 0)),
            Line::Raw => true,
        },
{
    let p = split_words(line@, 5);
    let n = p.len() as int;
    reveal_strlit(" ");
    assert(" "@ =~= seq![' ']);
    law_words_join_back(line@, 5);
    lemma_words_count(line@, 5);
    lemma_two(p, " "@);
    assert forall|k: int| 0 <= k < n && (k + 1 < n || n < 5) implies is_word(#[trigger] p[k]) by {
        assert forall|i: int| 0 <= i < p[k].len() implies p[k][i] != ' ' by {
            lemma_words_hold_no_space(line@, 5, k, i);
        }
    }
    match r {
        Line::File { name, dest, size } => {
            assert(is_word(p[1]) && is_word(p[2]));
            if n >= 4 {
                assert(is_word(p[3]));
            }
        },
        Line::Progress { percent } => {
            assert(is_word(p[1]));
        },
        Line::Done { name, mib, secs } => {
            assert(is_word(p[1]) && is_word(p[2]) && is_word(p[3]));
        },
        Line::Fail { name, message } => {
            assert(is_word(p[1]));
            let q = p.skip(2);
            lemma_two(q, " "@);
            if n == 3 {
                assert(q[0] == p[2]);
                assert(join(q, " "@) == p[2]);
            } else if n == 4 {
                assert(q[0] == p[2] && q[1] == p[3]);
            } else if n == 5 {
                assert(q[0] == p[2] && q[1] == p[3] && q[2] == p[4]);
            }
        },
        Line::Raw => {},
    }
}

/// Each form of line is known: a line that has the form is read so, whatever
/// words it holds.
pub proof fn law_every_form_is_known(
    line: &str,
    r: Line,
    a: Seq<char>,
    b: Seq<char>,
    c: Seq<char>,
    rest: Seq<char>,
)
    requires
        call_ensures(read_line, (line,), r),
        is_word(a),
        is_word(b),
        is_word(c),
    ensures
        line@ == "FILE"@ + " "@ + (a + " "@ + b) ==> (r matches Line::File { name, dest, size }
            && name@ == a && dest@ == b && size is None),
        line@ == "FILE"@ + " "@ + (a + " "@ + (b + " "@ + c)) ==> (r matches Line::File {
            name,
            dest,
            size,
        } && name@ == a && dest@ == b && size is Some && size->0@ == c),
        line@ == "FILE"@ + " "@ + (a + " "@ + (b + " "@ + (c + " "@ + rest))) ==> (
        r matches Line::File { name, dest, size } && name@ == a && dest@ == b && size is Some
            && size->0@ == c),
        line@ == "PROGRESS"@ + " "@ + a ==> (r matches Line::Progress { percent } && percent@ == a),
        line@ == "DONE"@ + " "@ + (a + " "@ + (b + " "@ + c)) ==> (r matches Line::Done {
            name,
            mib,
            secs,
        } && name@ == a && mib@ == b && secs@ == c),
        line@ == "FAIL"@ + " "@ + a ==> (r matches Line::Fail { name, message } && name@ == a
            && message@.len() == 0),
        line@ == "FAIL"@ + " "@ + (a + " "@ + rest) ==> (r matches Line::Fail { name, message }
            && name@ == a && message@ == rest),
{
    law_file_line(a, b);
    law_sized_file_line(a, b, c);
    law_progress_line(a);
    law_done_line(a, b, c);
    law_fail_line(a, rest);
    lemma_keywords();
    if line@ == "FILE"@ + " "@ + (a + " "@ + (b + " "@ + (c + " "@ + rest))) {
        lemma_cut_word("FILE"@, a + " "@ + (b + " "@ + (c + " "@ + rest)), 5);
        lemma_cut_word(a, b + " "@ + (c + " "@ + rest), 4);
        lemma_cut_word(b, c + " "@ + rest, 3);
        lemma_cut_word(c, rest, 2);
        let p = split_words(line@, 5);
        assert(p =~= seq!["FILE"@, a, b, c] + split_words(rest, 1));
        lemma_words_count(rest, 1);
        assert(p[0] == "FILE"@ && p[1] == a && p[2] == b && p[3] == c);
        assert(r@ == (LineModel::File { name: a, dest: b, size: Some(c) }));
    }
    if line@ == "FAIL"@ + " "@ + a {
        lemma_cut_word("FAIL"@, a, 5);
        lemma_cut_last(a, 4);
        let p = split_words(line@, 5);
        assert(p =~= seq!["FAIL"@, a]);
        assert(p.skip(2).len() == 0);
    }
}

/// The number that has to be read of a line is the size of a `FILE` or `DONE`
/// line, and the percentage of a `PROGRESS` line.
pub proof fn law_numerals(line: &str, l: Line, r: Option<String>)
    requires
        call_ensures(read_line, (line,), l),
        call_ensures(numeral, (line,), r),
    ensures
        match l {
            Line::File { name, dest, size } => r is Some == size is Some && (size is Some ==> r->0@
                == size->0@),
            Line::Progress { percent } => r is Some && r->0@ == percent@,
            Line::Done { name, mib, secs } => r is Some && r->0@ == mib@,
            Line::Fail { .. } => r is None,
            Line::Raw => r is None,
        },
{
}

/// The numbers of output are those of its lines.
pub proof fn law_numerals_of_output(
    output: &str,
    ls: Vec<String>,
    r: Vec<Option<String>>,
    i: int,
    line: &str,
    n: Option<String>,
)
    requires
        call_ensures(lines_of, (output,), ls),
        call_ensures(numerals, (output,), r),
        0 <= i < ls@.len(),
        line@ == ls@[i]@,
        call_ensures(numeral, (line,), n),
    ensures
        r@.len() == ls@.len(),
        r@[i] is Some == n is Some,
        n is Some ==> r@[i]->0@ == n->0@,
{
    assert(texts(ls@).len() == ls@.len());
    assert(texts(ls@)[i] == ls@[i]@);
}

// ── What a line does ──────────────────────────────────────────────────────────

/// A new setup has no file, no entry in its log, no progress and no end.
pub proof fn law_new_setup(r: InstallState)
    requires
        call_ensures(InstallState::new, (), r),
    ensures
        r.files@.len() == 0 && r.log@.len() == 0 && r.current_idx == 0,
        is_nought(r.current_percent),
        !r.done && r.error is None && r.auto_close_secs is None && r.auto_close_start is None,
{
    assert(r@.files.len() == r.files@.len());
    assert(r@.log.len() == r.log@.len());
}

/// A note is one more entry of the log, and nothing else.
pub proof fn law_notes(st: &mut InstallState, now: &str, text: &str)
    requires
        call_ensures(InstallState::note_at, (st, now, text), ()),
    ensures
        only_logged(*final(st), *old(st), now@, text@),
{
    lemma_logged(*final(st), *old(st));
}

/// A copy of a reading is the same reading, and zero is zero.
pub proof fn law_readings(a: &Reading, copy: Reading, zero: Reading)
    requires
        call_ensures(Reading::copy, (a,), copy),
        call_ensures(Reading::zero, (), zero),
    ensures
        same_reading(copy, *a),
        is_nought(zero),
{
}

/// A `FILE` line adds its file behind the others, still to be downloaded, with
/// the size that was read where the line has one. Nothing else changes.
pub proof fn law_file_lines_add_a_file(
    line: &str,
    l: Line,
    reading: Option<Reading>,
    now: &str,
    st: &mut InstallState,
)
    requires
        call_ensures(read_line, (line,), l),
        call_ensures(parse_line_at, (line, reading, now, st), ()),
        l is File,
    ensures
        l matches Line::File { name, dest, size } && {
            let n = old(st).files@.len();
            let f = final(st).files@[n as int];
            &&& final(st).files@.len() == n + 1
            &&& f.name@ == name@ && f.dest@ == dest@ && f.status is Pending
            &&& size is Some ==> same_size(f.size_mib, reading)
            &&& size is None ==> f.size_mib is None
        },
        same_files_but(*final(st), *old(st), -1),
        final(st).current_idx == old(st).current_idx,
        same_reading(final(st).current_percent, old(st).current_percent),
        log_grown(*final(st), *old(st), 0),
        same_end(*final(st), *old(st)),
{
    let a = *final(st);
    let b = *old(st);
    assert(a@.files.len() == a.files@.len());
    assert(b@.files.len() == b.files@.len());
    lemma_from_models(a, b, -1);
    let n = b.files@.len() as int;
    assert(a@.files[n] == a.files@[n]@);
    if l->File_size is Some {
        lemma_same_size(a.files@[n].size_mib, reading);
    }
    assert(a@.log.len() == b@.log.len());
}

/// Each `PROGRESS` line sets how far the current file is, whatever its status
/// was before; the other files, the names and the log stay as they are.
pub proof fn law_progress_lines_reach_the_current_file(
    line: &str,
    l: Line,
    reading: Option<Reading>,
    now: &str,
    st: &mut InstallState,
)
    requires
        call_ensures(read_line, (line,), l),
        call_ensures(parse_line_at, (line, reading, now, st), ()),
        l is Progress,
    ensures
        final(st).files@.len() == old(st).files@.len(),
        same_files_but(*final(st), *old(st), old(st).current_idx as int),
        old(st).current_idx < old(st).files@.len() ==> {
            let f = final(st).files@[old(st).current_idx as int];
            &&& same_announcement(f, old(st).files@[old(st).current_idx as int])
            &&& f.status matches FileStatus::Downloading { percent } && is_reading(percent, reading)
        },
        is_reading(final(st).current_percent, reading),
        final(st).current_idx == old(st).current_idx,
        log_grown(*final(st), *old(st), 0),
        same_end(*final(st), *old(st)),
{
    let a = *final(st);
    let b = *old(st);
    let i = b.current_idx as int;
    assert(a@.files.len() == a.files@.len());
    assert(b@.files.len() == b.files@.len());
    lemma_from_models(a, b, i);
    if i < b.files@.len() {
        assert(a@.files[i] == a.files@[i]@);
        assert(b@.files[i] == b.files@[i]@);
        lemma_same_size(a.files@[i].size_mib, b.files@[i].size_mib);
    }
    assert(a@.log.len() == b@.log.len());
}

/// The file at `i` is the first with that name, or there is none and `i` is the
/// number of files.
pub open spec fn is_first_named(st: InstallState, name: Seq<char>, i: int) -> bool {
    &&& 0 <= i <= st.files@.len()
    &&& i < st.files@.len() ==> st.files@[i].name@ == name
    &&& forall|j: int| 0 <= j < i ==> (#[trigger] st.files@[j]).name@ != name
}

proof fn lemma_is_first_named(st: InstallState, name: Seq<char>, i: int)
    requires
        is_first_named(st, name, i),
    ensures
        first_named(st@.files, name) == i,
{
    let k = first_named(st@.files, name);
    lemma_first_named_bounds(st@.files, name);
    assert(st@.files.len() == st.files@.len());
    if k < i {
        assert(st@.files[k] == st.files@[k]@);
    }
    if i < k {
        assert(st@.files[i] == st.files@[i]@);
        assert(st@.files[i].name != name);
    }
}

/// A `DONE` line marks the first file of its name as downloaded, with the size
/// that was read and the seconds of the line, or zero seconds where these are no
/// number; it goes on to the next file, from zero, and says so in the log.
pub proof fn law_done_lines_end_their_file(
    line: &str,
    l: Line,
    secs: &str,
    n: Option<u32>,
    reading: Option<Reading>,
    now: &str,
    st: &mut InstallState,
    i: int,
)
    requires
        call_ensures(read_line, (line,), l),
        call_ensures(parse_line_at, (line, reading, now, st), ()),
        l is Done,
        secs@ == l->Done_secs@,
        call_ensures(parse_u32, (secs,), n),
        is_first_named(*old(st), l->Done_name@, i),
    ensures
        final(st).files@.len() == old(st).files@.len(),
        same_files_but(*final(st), *old(st), i),
        i < old(st).files@.len() ==> same_announcement(final(st).files@[i], old(st).files@[i]) && (
        final(st).files@[i].status matches FileStatus::Done { mib, secs: s } && is_reading(
            mib,
            reading,
        ) && s == (if n is Some {
            n->0
        } else {
            0
        })),
        final(st).current_idx == old(st).current_idx + 1,
        is_nought(final(st).current_percent),
        log_grown(*final(st), *old(st), 1),
        final(st).log@.last()@ == "["@ + now@ + "] "@ + ("✅ OK ("@ + (if reading is Some {
            reading->0.rounded@
        } else {
            "0"@
        }) + " MiB en "@ + decimal((if n is Some {
            n->0
        } else {
            0
        }) as nat) + "s)"@),
        same_end(*final(st), *old(st)),
{
    let a = *final(st);
    let b = *old(st);
    assert(a@.files.len() == a.files@.len());
    assert(b@.files.len() == b.files@.len());
    lemma_is_first_named(b, l->Done_name@, i);
    lemma_from_models(a, b, i);
    if i < b.files@.len() {
        assert(a@.files[i] == a.files@[i]@);
        assert(b@.files[i] == b.files@[i]@);
        lemma_same_size(a.files@[i].size_mib, b.files@[i].size_mib);
    }
    assert(a@.log.len() == a.log@.len());
    assert(b@.log.len() == b.log@.len());
    assert(a@.log.last() == a.log@.last()@);
}

/// A `FAIL` line gives the first file of its name up, with the message of the
/// line; it goes on to the next file, from zero, and says so in the log.
pub proof fn law_fail_lines_give_their_file_up(
    line: &str,
    l: Line,
    reading: Option<Reading>,
    now: &str,
    st: &mut InstallState,
    i: int,
)
    requires
        call_ensures(read_line, (line,), l),
        call_ensures(parse_line_at, (line, reading, now, st), ()),
        l is Fail,
        is_first_named(*old(st), l->Fail_name@, i),
    ensures
        final(st).files@.len() == old(st).files@.len(),
        same_files_but(*final(st), *old(st), i),
        i < old(st).files@.len() ==> same_announcement(final(st).files@[i], old(st).files@[i]) && (
        final(st).files@[i].status matches FileStatus::Failed(m) && m@ == l->message@),
        final(st).current_idx == old(st).current_idx + 1,
        is_nought(final(st).current_percent),
        log_grown(*final(st), *old(st), 1),
        final(st).log@.last()@ == "["@ + now@ + "] "@ + ("❌ FAIL "@ + l->Fail_name@ + " : "@
            + l->message@),
        same_end(*final(st), *old(st)),
{
    let a = *final(st);
    let b = *old(st);
    assert(a@.files.len() == a.files@.len());
    assert(b@.files.len() == b.files@.len());
    lemma_is_first_named(b, l->Fail_name@, i);
    lemma_from_models(a, b, i);
    if i < b.files@.len() {
        assert(a@.files[i] == a.files@[i]@);
        assert(b@.files[i] == b.files@[i]@);
        lemma_same_size(a.files@[i].size_mib, b.files@[i].size_mib);
    }
    assert(a@.log.len() == a.log@.len());
    assert(b@.log.len() == b.log@.len());
    assert(a@.log.last() == a.log@.last()@);
}

/// Any other line stands in the log as it is, with the time in front of it,
/// unless it is blank; nothing else changes.
pub proof fn law_other_lines_are_kept(
    line: &str,
    l: Line,
    reading: Option<Reading>,
    now: &str,
    st: &mut InstallState,
)
    requires
        call_ensures(read_line, (line,), l),
        call_ensures(parse_line_at, (line, reading, now, st), ()),
        l is Raw,
    ensures
        is_blank(line@) ==> same_state(*final(st), *old(st)),
        !is_blank(line@) ==> only_logged(*final(st), *old(st), now@, line@),
{
    lemma_logged(*final(st), *old(st));
}

/// `a` is `b` with one more entry in its log: the text, with the time in front.
pub open spec fn only_logged(
    a: InstallState,
    b: InstallState,
    now: Seq<char>,
    text: Seq<char>,
) -> bool {
    &&& a.files@.len() == b.files@.len() && same_files_but(a, b, -1)
    &&& a.current_idx == b.current_idx
    &&& same_reading(a.current_percent, b.current_percent)
    &&& log_grown(a, b, 1)
    &&& a.log@.last()@ == "["@ + now + "] "@ + text
    &&& same_end(a, b)
}

/// Where the models differ in the log alone, by one entry or none, so do the
/// states.
pub proof fn lemma_logged(a: InstallState, b: InstallState)
    requires
        a@.files == b@.files,
        a@.current_idx == b@.current_idx,
        a@.current_percent == b@.current_percent,
        a@.done == b@.done && a@.error == b@.error && a@.auto_close_secs == b@.auto_close_secs
            && a@.auto_close_start == b@.auto_close_start,
        b@.log.is_prefix_of(a@.log),
    ensures
        a.files@.len() == b.files@.len() && same_files_but(a, b, -1),
        a.current_idx == b.current_idx,
        same_reading(a.current_percent, b.current_percent),
        log_grown(a, b, a.log@.len() - b.log@.len()),
        same_end(a, b),
        a@.log.len() == a.log@.len(),
        b@.log.len() == b.log@.len(),
        a.log@.len() > 0 ==> a@.log.last() == a.log@.last()@,
{
    assert(a@.files.len() == a.files@.len());
    assert(b@.files.len() == b.files@.len());
    lemma_from_models(a, b, -1);
    assert(a@.log.len() == a.log@.len());
    assert(b@.log.len() == b.log@.len());
    if a.log@.len() > 0 {
        assert(a@.log.last() == a.log@.last()@);
    }
}

/// A line at the present time of day does what it does at a given one, but for
/// the time in the log.
pub proof fn law_lines_of_now(
    line: &str,
    reading: Option<Reading>,
    now: &str,
    st: &mut InstallState,
    other: &mut InstallState,
)
    requires
        call_ensures(parse_line, (line, reading, st), ()),
        call_ensures(parse_line_at, (line, reading, now, other), ()),
        *old(st) == *old(other),
    ensures
        final(st).files@.len() == final(other).files@.len(),
        same_files_but(*final(st), *final(other), -1),
        final(st).current_idx == final(other).current_idx,
        same_reading(final(st).current_percent, final(other).current_percent),
        final(st).log@.len() == final(other).log@.len(),
        same_end(*final(st), *final(other)),
{
    let a = *final(st);
    let b = *final(other);
    let t = choose|t: Seq<char>|
        is_stamp(t) && a@ == #[trigger] after_line(old(st)@, line@, opt_reading(reading), t);
    assert(a@.files == b@.files);
    assert(a@.files.len() == a.files@.len());
    assert(b@.files.len() == b.files@.len());
    assert forall|j: int| 0 <= j < b.files@.len() implies same_file(
        #[trigger] a.files@[j],
        b.files@[j],
    ) by {
        assert(a@.files[j] == a.files@[j]@);
        assert(b@.files[j] == b.files@[j]@);
        lemma_same_file(a.files@[j], b.files@[j]);
    }
    assert(a@.log.len() == a.log@.len());
    assert(b@.log.len() == b.log@.len());
}

// ── Output ────────────────────────────────────────────────────────────────────

/// A line of output: a blank one is passed over; one that is not to be obeyed is
/// kept as it is, whatever it says; one that is to be obeyed does what the line
/// does.
pub proof fn law_lines_of_output(
    line: &str,
    parse: bool,
    reading: Option<Reading>,
    now: &str,
    st: &mut InstallState,
    other: &mut InstallState,
)
    requires
        call_ensures(take_line_at, (line, parse, reading, now, st), ()),
        call_ensures(parse_line_at, (line, reading, now, other), ()),
        *old(st) == *old(other),
    ensures
        is_blank(line@) ==> same_state(*final(st), *old(st)),
        !is_blank(line@) && !parse ==> only_logged(*final(st), *old(st), now@, line@),
        !is_blank(line@) && parse ==> same_state(*final(st), *final(other)),
{
    if is_blank(line@) || !parse {
        lemma_logged(*final(st), *old(st));
    } else {
        lemma_logged(*final(st), *final(other));
    }
}

/// Reading output gives the position behind it: as many bytes further as the
/// output has.
pub proof fn law_positions(
    output: &str,
    offset: u64,
    parse: bool,
    readings: &Vec<Option<Reading>>,
    st: &mut InstallState,
    r: u64,
)
    requires
        call_ensures(read_new_lines, (output, offset, parse, readings, st), r),
    ensures
        r == offset + vstd::utf8::encode_utf8(output@).len(),
        took(old(st)@, output@, parse, reading_models(readings@), final(st)@),
{
}

/// Output of one line does what that line does at some time of day. With the
/// law on reading on, this fixes what any output does.
pub proof fn law_output_of_one_line(
    line: Seq<char>,
    ended: bool,
    st: InstallModel,
    parse: bool,
    reading: Option<ReadingModel>,
    after: InstallModel,
)
    requires
        line.len() > 0,
        forall|i: int| 0 <= i < line.len() ==> line[i] != '\n',
        line.last() != '\r',
    ensures
        took(
            st,
            if ended {
                line + seq!['\n']
            } else {
                line
            },
            parse,
            seq![reading],
            after,
        ) <==> exists|now: Seq<char>|
            is_stamp(now) && after == #[trigger] after_output_line(st, line, parse, reading, now),
{
    let s = if ended {
        line + seq!['\n']
    } else {
        line
    };
    let ls = lines(s);
    assert(ls =~= seq![line]) by {
        if ended {
            assert(s[line.len() as int] == '\n');
            assert forall|j: int| 0 <= j < line.len() implies s[j] != '\n' by {
                assert(s[j] == line[j]);
            }
            lemma_first_at(s, '\n', line.len() as int);
            assert(s.take(line.len() as int) =~= line);
            let rest = s.skip(line.len() as int + 1);
            assert(rest.len() == 0);
            assert(lines(rest) =~= Seq::empty());
            assert(lines(s) == seq![line] + lines(rest));
        } else {
            lemma_first_at(s, '\n', line.len() as int);
        }
    }
    let readings = seq![reading];
    assert(ls.drop_last().len() == 0);
    assert forall|stamps: Seq<Seq<char>>| #[trigger]
        after_output(st, ls, parse, readings, stamps) == after_output_line(
            st,
            line,
            parse,
            reading,
            stamps[0],
        ) by {
        assert(after_output(st, ls.drop_last(), parse, readings, stamps) == st);
    }
    if took(st, s, parse, readings, after) {
        let stamps = choose|stamps: Seq<Seq<char>>|
            are_stamps(stamps, ls.len()) && after == #[trigger] after_output(
                st,
                ls,
                parse,
                readings,
                stamps,
            );
        assert(is_stamp(stamps[0]));
        assert(after == after_output_line(st, line, parse, reading, stamps[0]));
    }
    if exists|now: Seq<char>|
        is_stamp(now) && after == #[trigger] after_output_line(st, line, parse, reading, now) {
        let now = choose|now: Seq<char>|
            is_stamp(now) && after == #[trigger] after_output_line(st, line, parse, reading, now);
        let stamps = seq![now];
        assert(are_stamps(stamps, ls.len()));
        assert(after == after_output(st, ls, parse, readings, stamps));
    }
}

// ── Counts ────────────────────────────────────────────────────────────────────

/// How many of the first `n` files are downloaded, and how many failed: none of
/// none, and each file counts for itself.
pub proof fn law_counts(
    a: &InstallState,
    b: &InstallState,
    f: DownloadFile,
    ra: usize,
    rb: usize,
    fa: usize,
    fb: usize,
)
    requires
        call_ensures(InstallState::done_count, (a,), ra),
        call_ensures(InstallState::done_count, (b,), rb),
        call_ensures(InstallState::fail_count, (a,), fa),
        call_ensures(InstallState::fail_count, (b,), fb),
        b.files@ == a.files@.push(f),
    ensures
        a.files@.len() == 0 ==> ra == 0 && fa == 0,
        rb == ra + if f.status is Done {
            1int
        } else {
            0
        },
        fb == fa + if f.status is Failed {
            1int
        } else {
            0
        },
{
    assert(b@.files.drop_last() =~= a@.files);
    assert(b@.files.last() == f@);
}

/// The lines that end a file are those that are read as `DONE` or `FAIL`: none of
/// none, and each line counts for itself.
pub proof fn law_end_counts(
    a: &Vec<String>,
    b: &Vec<String>,
    last: String,
    line: &str,
    l: Line,
    ra: usize,
    rb: usize,
)
    requires
        call_ensures(end_count, (a,), ra),
        call_ensures(end_count, (b,), rb),
        b@ == a@.push(last),
        line@ == last@,
        call_ensures(read_line, (line,), l),
    ensures
        a@.len() == 0 ==> ra == 0,
        rb == ra + if l is Done || l is Fail {
            1int
        } else {
            0
        },
{
    assert(texts(a@).len() == a@.len());
    assert(texts(b@).drop_last() =~= texts(a@));
    assert(texts(b@).last() == last@);
}

/// No file counts as downloaded exactly where none is, and none as failed exactly
/// where none failed.
pub proof fn law_no_file_counts_for_another(st: &InstallState, done: usize, failed: usize)
    requires
        call_ensures(InstallState::done_count, (st,), done),
        call_ensures(InstallState::fail_count, (st,), failed),
    ensures
        done == 0 <==> forall|i: int|
            0 <= i < st.files@.len() ==> !((#[trigger] st.files@[i]).status is Done),
        failed == 0 <==> forall|i: int|
            0 <= i < st.files@.len() ==> !((#[trigger] st.files@[i]).status is Failed),
{
    lemma_no_count(st@.files);
    assert(st@.files.len() == st.files@.len());
    assert forall|i: int| 0 <= i < st.files@.len() implies st@.files[i].status is Done == ((
    #[trigger] st.files@[i]).status is Done) && st@.files[i].status is Failed == (
    st.files@[i].status is Failed) by {
        assert(st@.files[i] == st.files@[i]@);
    }
    if count_done(st@.files) == 0 {
        assert forall|i: int| 0 <= i < st.files@.len() implies !((
        #[trigger] st.files@[i]).status is Done) by {
            assert(!(st@.files[i].status is Done));
        }
    } else {
        let i = choose|i: int| 0 <= i < st@.files.len() && (#[trigger] st@.files[i]).status is Done;
        assert(st.files@[i].status is Done);
    }
    if count_failed(st@.files) == 0 {
        assert forall|i: int| 0 <= i < st.files@.len() implies !((
        #[trigger] st.files@[i]).status is Failed) by {
            assert(!(st@.files[i].status is Failed));
        }
    } else {
        let i = choose|i: int|
            0 <= i < st@.files.len() && (#[trigger] st@.files[i]).status is Failed;
        assert(st.files@[i].status is Failed);
    }
}

proof fn lemma_no_count(files: Seq<FileModel>)
    ensures
        count_done(files) == 0 <==> forall|i: int|
            0 <= i < files.len() ==> !((#[trigger] files[i]).status is Done),
        count_failed(files) == 0 <==> forall|i: int|
            0 <= i < files.len() ==> !((#[trigger] files[i]).status is Failed),
    decreases files.len(),
{
    if files.len() > 0 {
        let t = files.drop_last();
        lemma_no_count(t);
        assert forall|i: int| 0 <= i < t.len() implies #[trigger] files[i] == t[i] by {}
        assert(files[files.len() - 1] == files.last());
        if count_done(t) != 0 {
            let i = choose|i: int| 0 <= i < t.len() && (#[trigger] t[i]).status is Done;
            assert(files[i].status is Done);
        }
        if count_failed(t) != 0 {
            let i = choose|i: int| 0 <= i < t.len() && (#[trigger] t[i]).status is Failed;
            assert(files[i].status is Failed);
        }
    }
}

} // verus!
