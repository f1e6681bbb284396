//! What holds of several functions of the library together.
//!
//! The modules below state, function by function, what a caller sees: whatever
//! a call returns for its arguments, or makes of what it is given to change, is
//! related to them there directly.
use vstd::prelude::*;
use vstd::utf8::{
    decode_utf8, decode_utf8_encode_utf8, decode_utf8_split, encode_utf8, encode_utf8_decode_utf8,
    encode_utf8_valid_utf8, valid_utf8_split,
};

use crate::clock::{is_stamp, stamped};
use crate::progress::{
    after_line, after_output, are_stamps, count_done, count_ends, count_failed, count_files,
    ends_file, first_named, line_of, took, FileModel, InstallModel, LineModel, ReadingModel,
    StatusModel,
};
use crate::panel::{can_cut, closes_in, shortened};
use crate::scan::{law_words_join_back, lemma_first_at, lemma_first_at_bounds, lemma_words_count};
use crate::setup::{ended, failed};
use crate::text::{first_at, is_blank, is_white_space, lines, split_words, strip_cr};

pub mod of_drives;
pub mod of_labels;
pub mod of_lines;
pub mod of_panels;
pub mod of_runs;
pub mod of_shortcuts;
pub mod of_texts;
pub mod of_window;

verus! {

// ── The lines of the setup assistant ──────────────────────────────────────────

/// A word: no space in it.
pub open spec fn is_word(s: Seq<char>) -> bool {
    forall|i: int| 0 <= i < s.len() ==> s[i] != ' '
}

/// A word, a space and the rest are cut into the word and the parts of the rest.
pub proof fn lemma_cut_word(w: Seq<char>, rest: Seq<char>, n: nat)
    requires
        is_word(w),
        n >= 2,
    ensures
        split_words(w + " "@ + rest, n) == seq![w] + split_words(rest, (n - 1) as nat),
{
    reveal_strlit(" ");
    let s = w + " "@ + rest;
    assert(s[w.len() as int] == ' ');
    assert forall|j: int| 0 <= j < w.len() implies s[j] != ' ' by {
        assert(s[j] == w[j]);
    }
    lemma_first_at(s, ' ', w.len() as int);
    assert(s.take(w.len() as int) =~= w);
    assert(s.skip(w.len() as int + 1) =~= rest);
}

/// A word alone is its only part.
pub proof fn lemma_cut_last(w: Seq<char>, n: nat)
    requires
        is_word(w),
    ensures
        split_words(w, n) == seq![w],
{
    lemma_first_at(w, ' ', w.len() as int);
}

/// The keywords of the lines are words, and no two are the same.
pub proof fn lemma_keywords()
    ensures
        is_word("FILE"@),
        is_word("PROGRESS"@),
        is_word("DONE"@),
        is_word("FAIL"@),
        "FILE"@ != "DONE"@,
        "FILE"@ != "FAIL"@,
        "PROGRESS"@ != "DONE"@,
        "PROGRESS"@ != "FAIL"@,
        "DONE"@ != "FAIL"@,
        "FILE"@[0] == 'F',
        "PROGRESS"@[0] == 'P',
        "DONE"@[0] == 'D',
        "FAIL"@[0] == 'F',
{
    reveal_strlit("FILE");
    reveal_strlit("PROGRESS");
    reveal_strlit("DONE");
    reveal_strlit("FAIL");
    assert("FILE"@[1] == 'I');
    assert("FAIL"@[1] == 'A');
    assert("PROGRESS"@.len() == 8);
    assert("DONE"@.len() == 4);
    assert("FAIL"@.len() == 4);
}

/// `FILE <name> <dest>` announces a file without a size.
pub proof fn law_file_line(name: Seq<char>, dest: Seq<char>)
    requires
        is_word(name),
        is_word(dest),
    ensures
        line_of("FILE"@ + " "@ + (name + " "@ + dest)) == (LineModel::File {
            name,
            dest,
            size: None,
        }),
{
    lemma_keywords();
    lemma_cut_word("FILE"@, name + " "@ + dest, 5);
    lemma_cut_word(name, dest, 4);
    lemma_cut_last(dest, 3);
    let p = split_words("FILE"@ + " "@ + (name + " "@ + dest), 5);
    assert(p =~= seq!["FILE"@, name, dest]);
}

/// `FILE <name> <dest> <size>` announces a file with a size.
pub proof fn law_sized_file_line(name: Seq<char>, dest: Seq<char>, size: Seq<char>)
    requires
        is_word(name),
        is_word(dest),
        is_word(size),
    ensures
        line_of("FILE"@ + " "@ + (name + " "@ + (dest + " "@ + size))) == (LineModel::File {
            name,
            dest,
            size: Some(size),
        }),
{
    lemma_keywords();
    lemma_cut_word("FILE"@, name + " "@ + (dest + " "@ + size), 5);
    lemma_cut_word(name, dest + " "@ + size, 4);
    lemma_cut_word(dest, size, 3);
    lemma_cut_last(size, 2);
    let p = split_words("FILE"@ + " "@ + (name + " "@ + (dest + " "@ + size)), 5);
    assert(p =~= seq!["FILE"@, name, dest, size]);
}

/// `PROGRESS <percent>` tells how far the current file is.
pub proof fn law_progress_line(percent: Seq<char>)
    requires
        is_word(percent),
    ensures
        line_of("PROGRESS"@ + " "@ + percent) == (LineModel::Progress { percent }),
{
    lemma_keywords();
    lemma_cut_word("PROGRESS"@, percent, 5);
    lemma_cut_last(percent, 4);
    let p = split_words("PROGRESS"@ + " "@ + percent, 5);
    assert(p =~= seq!["PROGRESS"@, percent]);
}

/// `DONE <name> <size> <secs>` ends the download of a file.
pub proof fn law_done_line(name: Seq<char>, mib: Seq<char>, secs: Seq<char>)
    requires
        is_word(name),
        is_word(mib),
        is_word(secs),
    ensures
        line_of("DONE"@ + " "@ + (name + " "@ + (mib + " "@ + secs))) == (LineModel::Done {
            name,
            mib,
            secs,
        }),
{
    lemma_keywords();
    lemma_cut_word("DONE"@, name + " "@ + (mib + " "@ + secs), 5);
    lemma_cut_word(name, mib + " "@ + secs, 4);
    lemma_cut_word(mib, secs, 3);
    lemma_cut_last(secs, 2);
    let p = split_words("DONE"@ + " "@ + (name + " "@ + (mib + " "@ + secs)), 5);
    assert(p =~= seq!["DONE"@, name, mib, secs]);
}

/// `FAIL <name> <message>` gives up a file, and the message is everything
/// behind the name, whatever spaces it holds.
pub proof fn law_fail_line(name: Seq<char>, message: Seq<char>)
    requires
        is_word(name),
    ensures
        line_of("FAIL"@ + " "@ + (name + " "@ + message)) == (LineModel::Fail { name, message }),
{
    lemma_keywords();
    lemma_cut_word("FAIL"@, name + " "@ + message, 5);
    lemma_cut_word(name, message, 4);
    let p = split_words("FAIL"@ + " "@ + (name + " "@ + message), 5);
    let rest = split_words(message, 3);
    lemma_words_count(message, 3);
    assert(p =~= seq!["FAIL"@, name] + rest);
    assert(p[0] == "FAIL"@);
    assert(p[1] == name);
    assert(p.skip(2) =~= rest);
    law_words_join_back(message, 3);
    reveal_strlit(" ");
    assert(" "@ =~= seq![' ']);
}

/// `LOG <message>` is put into the log as it stands, and changes nothing else.
pub proof fn law_log_line(
    st: InstallModel,
    message: Seq<char>,
    reading: Option<ReadingModel>,
    now: Seq<char>,
)
    ensures
        line_of("LOG"@ + " "@ + message) is Raw,
        after_line(st, "LOG"@ + " "@ + message, reading, now) == (InstallModel {
            log: st.log.push(stamped(now, "LOG"@ + " "@ + message)),
            ..st
        }),
{
    let line = "LOG"@ + " "@ + message;
    lemma_keywords();
    reveal_strlit("LOG");
    lemma_cut_word("LOG"@, message, 5);
    assert(split_words(line, 5)[0] == "LOG"@);
    assert("LOG"@[0] == 'L');
    assert(line[0] == 'L');
    assert(!is_white_space(line[0]));
}

/// A blank line says nothing.
pub proof fn law_blank_line_is_raw(line: Seq<char>)
    requires
        is_blank(line),
    ensures
        line_of(line) is Raw,
{
    lemma_keywords();
    lemma_first_at_bounds(line, ' ');
    lemma_words_count(line, 5);
    let p = split_words(line, 5);
    if p[0].len() > 0 {
        assert(p[0][0] == line[0]);
        assert(is_white_space(line[0]));
    }
    reveal_strlit("FILE");
    reveal_strlit("PROGRESS");
    reveal_strlit("DONE");
    reveal_strlit("FAIL");
}

// ── The state of a setup ──────────────────────────────────────────────────────

/// A line adds a file only if it announces one, moves on to the next file only
/// if it ends one, adds at most one entry to the log, and leaves what is there
/// as it is: the entries, the names, destinations and sizes of the files, and
/// how the setup ended.
pub proof fn law_line_frame(
    st: InstallModel,
    line: Seq<char>,
    reading: Option<ReadingModel>,
    now: Seq<char>,
)
    ensures
        ({
            let a = after_line(st, line, reading, now);
            &&& a.done == st.done && a.error == st.error
            &&& a.auto_close_secs == st.auto_close_secs
            &&& a.auto_close_start == st.auto_close_start
            &&& st.log.is_prefix_of(a.log) && a.log.len() <= st.log.len() + 1
            &&& a.files.len() == st.files.len() + if line_of(line) is File {
                1int
            } else {
                0
            }
            &&& a.current_idx == st.current_idx + if ends_file(line) {
                1int
            } else {
                0
            }
            &&& forall|i: int|
                0 <= i < st.files.len() ==> (#[trigger] a.files[i]).name == st.files[i].name
                    && a.files[i].dest == st.files[i].dest && a.files[i].size_mib
                    == st.files[i].size_mib
        }),
{
}

/// A file is not both downloaded and failed.
pub proof fn law_counts_fit(files: Seq<FileModel>)
    ensures
        count_done(files) + count_failed(files) <= files.len(),
    decreases files.len(),
{
    if files.len() > 0 {
        law_counts_fit(files.drop_last());
    }
}

/// Changing one status changes the counts by what it was and what it is.
proof fn lemma_counts_update(files: Seq<FileModel>, i: int, f: FileModel)
    requires
        0 <= i < files.len(),
    ensures
        count_done(files.update(i, f)) == count_done(files) - (if files[i].status is Done {
            1int
        } else {
            0
        }) + (if f.status is Done {
            1int
        } else {
            0
        }),
        count_failed(files.update(i, f)) == count_failed(files) - (if files[i].status is Failed {
            1int
        } else {
            0
        }) + (if f.status is Failed {
            1int
        } else {
            0
        }),
    decreases files.len(),
{
    let u = files.update(i, f);
    if i == files.len() - 1 {
        assert(u.drop_last() =~= files.drop_last());
    } else {
        assert(u.drop_last() =~= files.drop_last().update(i, f));
        lemma_counts_update(files.drop_last(), i, f);
    }
}

/// `first_named` is the position of a file of that name, or the number of files
/// where none has it.
pub proof fn lemma_first_named_bounds(files: Seq<FileModel>, name: Seq<char>)
    ensures
        0 <= first_named(files, name) <= files.len(),
        first_named(files, name) < files.len() ==> files[first_named(files, name)].name == name,
        forall|j: int| 0 <= j < first_named(files, name) ==> (#[trigger] files[j]).name != name,
    decreases files.len(),
{
    if files.len() > 0 && files[0].name != name {
        let t = files.skip(1);
        lemma_first_named_bounds(t, name);
        assert forall|j: int| 0 <= j < first_named(files, name) implies (
        #[trigger] files[j]).name != name by {
            if j > 0 {
                assert(t[j - 1] == files[j]);
            }
        }
    }
}

/// A `DONE` line marks the first file of its name and no other, and counts it
/// as downloaded, once; where no file has the name, no file changes.
pub proof fn law_done_marks_its_file(
    st: InstallModel,
    line: Seq<char>,
    reading: Option<ReadingModel>,
    now: Seq<char>,
)
    requires
        line_of(line) is Done,
    ensures
        ({
            let a = after_line(st, line, reading, now);
            let i = first_named(st.files, line_of(line)->Done_name);
            &&& i < st.files.len() ==> a.files[i].status is Done && count_done(a.files)
                == count_done(st.files) + if st.files[i].status is Done {
                0int
            } else {
                1
            }
            &&& i >= st.files.len() ==> a.files == st.files
            &&& forall|j: int|
                0 <= j < st.files.len() && j != i ==> #[trigger] a.files[j] == st.files[j]
        }),
{
    let name = line_of(line)->Done_name;
    lemma_first_named_bounds(st.files, name);
    let i = first_named(st.files, name);
    let a = after_line(st, line, reading, now);
    if i < st.files.len() {
        lemma_counts_update(st.files, i, a.files[i]);
    }
}

/// A `FAIL` line marks the first file of its name and no other, with the
/// message of the line, and counts it as failed, once; where no file has the
/// name, no file changes.
pub proof fn law_fail_marks_its_file(
    st: InstallModel,
    line: Seq<char>,
    reading: Option<ReadingModel>,
    now: Seq<char>,
)
    requires
        line_of(line) is Fail,
    ensures
        ({
            let a = after_line(st, line, reading, now);
            let i = first_named(st.files, line_of(line)->Fail_name);
            &&& i < st.files.len() ==> a.files[i].status == StatusModel::Failed(
                line_of(line)->message,
            ) && count_failed(a.files) == count_failed(st.files) + if st.files[i].status is Failed {
                0int
            } else {
                1
            }
            &&& i >= st.files.len() ==> a.files == st.files
            &&& forall|j: int|
                0 <= j < st.files.len() && j != i ==> #[trigger] a.files[j] == st.files[j]
        }),
{
    let name = line_of(line)->Fail_name;
    lemma_first_named_bounds(st.files, name);
    let i = first_named(st.files, name);
    let a = after_line(st, line, reading, now);
    if i < st.files.len() {
        lemma_counts_update(st.files, i, a.files[i]);
    }
}

/// Over any output of the assistant, there are as many new files as lines that
/// announce one, and the current file has moved on by as many as lines that end
/// one; the log only grows, and the output does not decide how the setup ends.
pub proof fn law_output_counts(
    st: InstallModel,
    ls: Seq<Seq<char>>,
    readings: Seq<Option<ReadingModel>>,
    stamps: Seq<Seq<char>>,
)
    ensures
        ({
            let a = after_output(st, ls, true, readings, stamps);
            &&& a.files.len() == st.files.len() + count_files(ls)
            &&& a.current_idx == st.current_idx + count_ends(ls)
            &&& st.log.is_prefix_of(a.log) && a.log.len() <= st.log.len() + ls.len()
            &&& a.done == st.done && a.error == st.error
            &&& a.auto_close_secs == st.auto_close_secs
            &&& a.auto_close_start == st.auto_close_start
        }),
    decreases ls.len(),
{
    if ls.len() > 0 {
        law_output_counts(st, ls.drop_last(), readings, stamps);
        let b = after_output(st, ls.drop_last(), true, readings, stamps);
        let line = ls.last();
        if is_blank(line) {
            law_blank_line_is_raw(line);
        }
        law_line_frame(b, line, readings[ls.len() - 1], stamps[ls.len() - 1]);
    }
}

/// How many of the lines are not blank.
pub open spec fn count_shown(ls: Seq<Seq<char>>) -> nat
    decreases ls.len(),
{
    if ls.len() == 0 {
        0
    } else {
        count_shown(ls.drop_last()) + if is_blank(ls.last()) {
            0nat
        } else {
            1
        }
    }
}

/// Output that is not the assistant's changes the log alone: each line that is
/// not blank is one more entry.
pub proof fn law_plain_output_only_logs(
    st: InstallModel,
    ls: Seq<Seq<char>>,
    readings: Seq<Option<ReadingModel>>,
    stamps: Seq<Seq<char>>,
)
    ensures
        ({
            let a = after_output(st, ls, false, readings, stamps);
            &&& a == InstallModel { log: a.log, ..st }
            &&& st.log.is_prefix_of(a.log)
            &&& a.log.len() == st.log.len() + count_shown(ls)
        }),
    decreases ls.len(),
{
    if ls.len() > 0 {
        law_plain_output_only_logs(st, ls.drop_last(), readings, stamps);
    }
}

/// Text that ends with a line does not run into the text behind it.
pub proof fn lemma_lines_of_both(a: Seq<char>, b: Seq<char>)
    requires
        a.len() > 0 ==> a.last() == '\n',
    ensures
        lines(a + b) == lines(a) + lines(b),
    decreases a.len(),
{
    if a.len() == 0 {
        assert(a + b =~= b);
        assert(lines(a) + lines(b) =~= lines(b));
    } else {
        lemma_first_at_bounds(a, '\n');
        let i = first_at(a, '\n');
        assert(i < a.len()) by {
            if i == a.len() {
                assert(a[a.len() - 1] != '\n');
            }
        }
        let s = a + b;
        assert forall|j: int| 0 <= j < i implies s[j] != '\n' by {
            assert(s[j] == a[j]);
        }
        lemma_first_at(s, '\n', i);
        let rest = a.skip(i + 1);
        assert(s.take(i) =~= a.take(i));
        assert(s.skip(i + 1) =~= rest + b);
        if rest.len() > 0 {
            assert(rest.last() == a.last());
        }
        lemma_lines_of_both(rest, b);
        let line = seq![strip_cr(a.take(i))];
        assert(line + (lines(rest) + lines(b)) =~= (line + lines(rest)) + lines(b));
    }
}

proof fn lemma_after_output_of_both(
    st: InstallModel,
    la: Seq<Seq<char>>,
    lb: Seq<Seq<char>>,
    parse: bool,
    ra: Seq<Option<ReadingModel>>,
    rb: Seq<Option<ReadingModel>>,
    sa: Seq<Seq<char>>,
    sb: Seq<Seq<char>>,
)
    requires
        la.len() == ra.len() == sa.len(),
        lb.len() <= rb.len(),
        lb.len() <= sb.len(),
    ensures
        after_output(st, la + lb, parse, ra + rb, sa + sb) == after_output(
            after_output(st, la, parse, ra, sa),
            lb,
            parse,
            rb,
            sb,
        ),
    decreases la.len() + lb.len(),
{
    let l = la + lb;
    if lb.len() > 0 {
        assert(l.drop_last() =~= la + lb.drop_last());
        lemma_after_output_of_both(st, la, lb.drop_last(), parse, ra, rb, sa, sb);
    } else {
        assert(l =~= la);
        lemma_after_output_alike(st, la, parse, ra, sa, ra + rb, sa + sb);
    }
}

proof fn lemma_after_output_alike(
    st: InstallModel,
    ls: Seq<Seq<char>>,
    parse: bool,
    r1: Seq<Option<ReadingModel>>,
    s1: Seq<Seq<char>>,
    r2: Seq<Option<ReadingModel>>,
    s2: Seq<Seq<char>>,
)
    requires
        forall|i: int| 0 <= i < ls.len() ==> r1[i] == #[trigger] r2[i],
        forall|i: int| 0 <= i < ls.len() ==> s1[i] == #[trigger] s2[i],
    ensures
        after_output(st, ls, parse, r1, s1) == after_output(st, ls, parse, r2, s2),
    decreases ls.len(),
{
    if ls.len() > 0 {
        lemma_after_output_alike(st, ls.drop_last(), parse, r1, s1, r2, s2);
        assert(r1[ls.len() - 1] == r2[ls.len() - 1]);
        assert(s1[ls.len() - 1] == s2[ls.len() - 1]);
    }
}

/// The bytes of two texts, one behind the other.
proof fn lemma_bytes_of_both(a: Seq<char>, b: Seq<char>)
    ensures
        encode_utf8(a + b) == encode_utf8(a) + encode_utf8(b),
    decreases a.len(),
{
    if a.len() == 0 {
        assert(a + b =~= b);
        assert(encode_utf8(a) + encode_utf8(b) =~= encode_utf8(b));
    } else {
        lemma_bytes_of_both(a.drop_first(), b);
        assert((a + b).drop_first() =~= a.drop_first() + b);
        assert((a + b)[0] == a[0]);
        assert(encode_utf8(a + b) =~= encode_utf8(a) + encode_utf8(b));
    }
}

/// It does not matter in how many pieces output is read, as long as each but
/// the last ends with a line: the state after them, for the same times of day,
/// is that after the whole, and the bytes are those of the whole.
pub proof fn law_output_in_pieces(
    st: InstallModel,
    a: Seq<char>,
    b: Seq<char>,
    parse: bool,
    ra: Seq<Option<ReadingModel>>,
    rb: Seq<Option<ReadingModel>>,
    sa: Seq<Seq<char>>,
    sb: Seq<Seq<char>>,
)
    requires
        a.len() > 0 ==> a.last() == '\n',
        ra.len() == sa.len() == lines(a).len(),
        rb.len() == sb.len() == lines(b).len(),
    ensures
        after_output(st, lines(a + b), parse, ra + rb, sa + sb) == after_output(
            after_output(st, lines(a), parse, ra, sa),
            lines(b),
            parse,
            rb,
            sb,
        ),
        encode_utf8(a + b) == encode_utf8(a) + encode_utf8(b),
{
    lemma_lines_of_both(a, b);
    lemma_after_output_of_both(st, lines(a), lines(b), parse, ra, rb, sa, sb);
    lemma_bytes_of_both(a, b);
}

/// Reading output that ends with a line, and then what was added behind it,
/// comes to the same as reading all of it at once: a state that one of the two
/// can lead to is one that the other can lead to. No line is lost, and none is
/// taken twice: what stands behind the position of the first reading is what was
/// added.
pub proof fn law_reading_on(
    st: InstallModel,
    after: InstallModel,
    a: Seq<char>,
    b: Seq<char>,
    parse: bool,
    ra: Seq<Option<ReadingModel>>,
    rb: Seq<Option<ReadingModel>>,
)
    requires
        a.len() > 0 ==> a.last() == '\n',
        ra.len() == lines(a).len(),
        rb.len() == lines(b).len(),
    ensures
        took(st, a + b, parse, ra + rb, after) <==> exists|mid: InstallModel|
            #[trigger] took(st, a, parse, ra, mid) && took(mid, b, parse, rb, after),
        encode_utf8(a + b).len() == encode_utf8(a).len() + encode_utf8(b).len(),
        encode_utf8(a + b).skip(encode_utf8(a).len() as int) == encode_utf8(b),
{
    lemma_lines_of_both(a, b);
    lemma_bytes_of_both(a, b);
    assert(encode_utf8(a + b).skip(encode_utf8(a).len() as int) =~= encode_utf8(b));
    let na = lines(a).len() as int;
    if took(st, a + b, parse, ra + rb, after) {
        let stamps = choose|stamps: Seq<Seq<char>>|
            are_stamps(stamps, lines(a + b).len()) && after == #[trigger] after_output(
                st,
                lines(a + b),
                parse,
                ra + rb,
                stamps,
            );
        let sa = stamps.take(na);
        let sb = stamps.skip(na);
        assert(sa + sb =~= stamps);
        assert forall|i: int| 0 <= i < sa.len() implies is_stamp(#[trigger] sa[i]) by {
            assert(sa[i] == stamps[i]);
        }
        assert forall|i: int| 0 <= i < sb.len() implies is_stamp(#[trigger] sb[i]) by {
            assert(sb[i] == stamps[i + na]);
        }
        law_output_in_pieces(st, a, b, parse, ra, rb, sa, sb);
        let mid = after_output(st, lines(a), parse, ra, sa);
        assert(took(st, a, parse, ra, mid));
        assert(took(mid, b, parse, rb, after));
    }
    if exists|mid: InstallModel|
        #[trigger] took(st, a, parse, ra, mid) && took(mid, b, parse, rb, after) {
        let mid = choose|mid: InstallModel|
            #[trigger] took(st, a, parse, ra, mid) && took(mid, b, parse, rb, after);
        let sa = choose|stamps: Seq<Seq<char>>|
            are_stamps(stamps, lines(a).len()) && mid == #[trigger] after_output(
                st,
                lines(a),
                parse,
                ra,
                stamps,
            );
        let sb = choose|stamps: Seq<Seq<char>>|
            are_stamps(stamps, lines(b).len()) && after == #[trigger] after_output(
                mid,
                lines(b),
                parse,
                rb,
                stamps,
            );
        law_output_in_pieces(st, a, b, parse, ra, rb, sa, sb);
        let stamps = sa + sb;
        assert forall|i: int| 0 <= i < stamps.len() implies is_stamp(#[trigger] stamps[i]) by {
            if i < na {
                assert(stamps[i] == sa[i]);
            } else {
                assert(stamps[i] == sb[i - na]);
            }
        }
        assert(are_stamps(stamps, lines(a + b).len()));
    }
}

/// Where nothing was added, reading on changes nothing, nor the position.
pub proof fn law_nothing_to_read(
    st: InstallModel,
    after: InstallModel,
    parse: bool,
    readings: Seq<Option<ReadingModel>>,
)
    ensures
        took(st, Seq::empty(), parse, readings, after) <==> after == st,
        encode_utf8(Seq::empty()).len() == 0,
{
    let none: Seq<Seq<char>> = Seq::empty();
    assert(lines(Seq::empty()).len() == 0);
    assert(are_stamps(none, 0));
    assert(after_output(st, lines(Seq::empty()), parse, readings, none) == st);
}

// ── The panel of a setup ──────────────────────────────────────────────────────

/// The panel of a setup closes by itself five seconds after its end, and not
/// before, be that the end of the program or that it could not be started.
pub proof fn law_panel_closes_after_the_run(
    st: InstallModel,
    label: Seq<char>,
    success: bool,
    tick: u64,
    now: Seq<char>,
    later: u64,
    error: Seq<char>,
)
    requires
        tick <= later,
        (later - tick) / 1_000_000_000 < 0x1_0000_0000,
    ensures
        closes_in(ended(st, label, success, tick, now), later) == Some(0int) <==> later - tick
            >= 5_000_000_000,
        closes_in(failed(st, error, tick), later) == Some(0int) <==> later - tick
            >= 5_000_000_000,
{
}

/// A text that is cut keeps its beginning: as many characters as fill the bytes
/// at which it is cut.
pub proof fn law_cut_keeps_the_beginning(s: Seq<char>, max: int, cut: int)
    requires
        can_cut(s, max, cut),
        encode_utf8(s).len() > max,
        0 <= cut <= max,
    ensures
        exists|head: Seq<char>|
            head.is_prefix_of(s) && #[trigger] encode_utf8(head).len() == cut && shortened(
                s,
                max,
                cut,
            ) == head + "…"@,
{
    let bytes = encode_utf8(s);
    encode_utf8_valid_utf8(s);
    encode_utf8_decode_utf8(s);
    valid_utf8_split(bytes, cut);
    decode_utf8_split(bytes, cut);
    let head = decode_utf8(bytes.subrange(0, cut));
    let tail = decode_utf8(bytes.subrange(cut, bytes.len() as int));
    assert(s == head + tail);
    assert(head =~= s.take(head.len() as int));
    decode_utf8_encode_utf8(bytes.subrange(0, cut));
    assert(encode_utf8(head).len() == cut);
}

} // verus!
