//! What the panels show, and when they close.
use vstd::prelude::*;
use vstd::utf8::{encode_utf8, is_char_boundary};

use crate::desk::Tone;
use crate::laws::law_cut_keeps_the_beginning;
use crate::panel::{
    auto_close, bar_label, entry_tone, file_row, file_rows, install_close_label, row_fits, row_of,
    setup_bar, setup_close_label, shorten, shortened, stays_open, Row,
};
use crate::progress::{DownloadFile, FileStatus, InstallState};
use crate::scan::contains;
use crate::strings::Strings;
use crate::text::decimal;

verus! {

// ── The bar ───────────────────────────────────────────────────────────────────

/// The bar tells how many of the files are there, out of how many, how far the
/// setup is, and then once more how many are there, behind the check mark, and
/// how many failed, behind the cross. Without a file it says that none is known.
pub proof fn law_bars(
    st: &InstallState,
    strings: &Strings,
    percent: &str,
    r: String,
    done: usize,
    failed: usize,
    searching: &str,
)
    requires
        call_ensures(bar_label, (st, strings, percent), r),
        call_ensures(InstallState::done_count, (st,), done),
        call_ensures(InstallState::fail_count, (st,), failed),
        call_ensures(Strings::ia_searching, (strings,), searching),
    ensures
        st.files@.len() > 0 ==> r@ == decimal(done as nat) + "/"@ + decimal(st.files@.len()) + "  "@
            + percent@ + "%   ✅ "@ + decimal(done as nat) + "  ❌ "@ + decimal(failed as nat),
        st.files@.len() == 0 ==> r@ == searching@,
{
    assert(st@.files.len() == st.files@.len());
}

/// With no failed file the bar ends with a cross and a zero, and with no file
/// that is there it begins with a zero.
pub proof fn law_bars_without_failures(
    st: &InstallState,
    strings: &Strings,
    percent: &str,
    r: String,
    done: usize,
    failed: usize,
)
    requires
        call_ensures(bar_label, (st, strings, percent), r),
        call_ensures(InstallState::done_count, (st,), done),
        call_ensures(InstallState::fail_count, (st,), failed),
        st.files@.len() > 0,
    ensures
        (forall|i: int|
            0 <= i < st.files@.len() ==> !((#[trigger] st.files@[i]).status is Failed))
            ==> r@.len() >= 4 && r@.skip(r@.len() - 4) == " ❌ 0"@,
        (forall|i: int| 0 <= i < st.files@.len() ==> !((#[trigger] st.files@[i]).status is Done))
            ==> r@.len() >= 2 && r@[0] == '0' && r@[1] == '/',
{
    crate::laws::of_lines::law_no_file_counts_for_another(st, done, failed);
    assert(st@.files.len() == st.files@.len());
    reveal_strlit("/");
    reveal_strlit("  ❌ ");
    reveal_strlit("  ❌ 0");
    reveal_strlit(" ❌ 0");
    crate::laws::of_texts::law_decimal(0);
    let head = decimal(done as nat) + "/"@ + decimal(st.files@.len()) + "  "@ + percent@
        + "%   ✅ "@ + decimal(done as nat);
    assert(r@ == head + "  ❌ "@ + decimal(failed as nat));
    if forall|i: int| 0 <= i < st.files@.len() ==> !((#[trigger] st.files@[i]).status is Failed) {
        assert(failed == 0);
        assert(r@ =~= head + "  ❌ 0"@);
        assert("  ❌ 0"@.len() == 5);
        assert(r@.skip(r@.len() - 4) =~= " ❌ 0"@);
    }
    if forall|i: int| 0 <= i < st.files@.len() ==> !((#[trigger] st.files@[i]).status is Done) {
        assert(done == 0);
        assert(head[0] == '0' && head[1] == '/');
    }
}

// ── The table ─────────────────────────────────────────────────────────────────

/// A text that is short enough is shown whole; any other by as many characters
/// of its beginning as fill the bytes at which it is cut, and an ellipsis.
pub proof fn law_shortening(s: &str, max: usize, cut: usize, r: String)
    requires
        call_ensures(shorten, (s, max, cut), r),
        cut <= max,
        encode_utf8(s@).len() > max ==> is_char_boundary(encode_utf8(s@), cut as int),
    ensures
        encode_utf8(s@).len() <= max ==> r@ == s@,
        encode_utf8(s@).len() > max ==> exists|head: Seq<char>|
            head.is_prefix_of(s@) && #[trigger] encode_utf8(head).len() == cut && r@ == head
                + "…"@,
{
    if encode_utf8(s@).len() > max {
        law_cut_keeps_the_beginning(s@, max as int, cut as int);
        let head = choose|head: Seq<char>|
            head.is_prefix_of(s@) && #[trigger] encode_utf8(head).len() == cut && shortened(
                s@,
                max as int,
                cut as int,
            ) == head + "…"@;
        assert(r@ == head + "…"@);
    }
}

/// A file can be shown unless a character stands across the place where its name
/// or its destination is to be cut: at 17 bytes out of more than 18, and at 11
/// out of more than 12.
pub proof fn law_files_that_can_be_shown(f: &DownloadFile, r: bool)
    requires
        call_ensures(row_fits, (f,), r),
    ensures
        r <==> (encode_utf8(f.name@).len() <= 18 || is_char_boundary(encode_utf8(f.name@), 17)) && (
        encode_utf8(f.dest@).len() <= 12 || is_char_boundary(encode_utf8(f.dest@), 11)),
{
}

/// The line of a file: its number in the list, its name and destination, cut
/// where they are long, and what its status tells: the mark, the colour, the
/// size and the words.
pub proof fn law_rows(
    idx: usize,
    f: &DownloadFile,
    r: Row,
    name: &str,
    dest: &str,
    short_name: String,
    short_dest: String,
)
    requires
        call_ensures(file_row, (idx, f), r),
        name@ == f.name@,
        dest@ == f.dest@,
        call_ensures(shorten, (name, 18usize, 17usize), short_name),
        call_ensures(shorten, (dest, 12usize, 11usize), short_dest),
    ensures
        r.name@ == short_name@,
        r.dest@ == short_dest@,
        ({
            let n = decimal((idx + 1) as nat);
            let announced = if f.size_mib is Some {
                f.size_mib->0.tenths@ + " MiB"@
            } else {
                "-"@
            };
            match f.status {
                FileStatus::Pending => r.tone == Tone::Dim && r.number@ == " "@ + n && r.size@
                    == announced && r.status@ == "⏳"@,
                FileStatus::Downloading { percent } => r.tone == Tone::Accent && r.number@ == "▶"@
                    + n && r.size@ == announced && r.status@ == "⬇ "@ + percent.rounded@ + "%"@,
                FileStatus::Done { mib, secs } => r.tone == Tone::Good && r.number@ == "✓"@ + n
                    && r.size@ == mib.rounded@ + " MiB"@ && r.status@ == "✅ "@ + decimal(
                    secs as nat,
                ) + "s"@,
                FileStatus::Failed(message) => r.tone == Tone::Bad && r.number@ == "✗"@ + n
                    && r.size@ == announced && r.status@ == "❌ "@ + message@,
            }
        }),
{
    assert(r@ == row_of(idx as int, f@));
}

/// The table has one line for each file, in the order of the files.
pub proof fn law_tables(st: &InstallState, rows: Vec<Row>, i: usize, f: &DownloadFile, row: Row)
    requires
        call_ensures(file_rows, (st,), rows),
        i < st.files@.len(),
        *f == st.files@[i as int],
        call_ensures(file_row, (i, f), row),
    ensures
        rows@.len() == st.files@.len(),
        ({
            let r = rows@[i as int];
            &&& r.tone == row.tone
            &&& r.number@ == row.number@ && r.name@ == row.name@ && r.dest@ == row.dest@
            &&& r.size@ == row.size@ && r.status@ == row.status@
        }),
{
    assert(st@.files.len() == st.files@.len());
    assert(st@.files[i as int] == st.files@[i as int]@);
    assert(rows@[i as int]@ == row@);
}

// ── Closing ───────────────────────────────────────────────────────────────────

/// A panel is to close exactly where both the delay and its beginning are known.
/// What is left of the delay is the delay without the whole seconds that have
/// gone by, and nothing once these are as many. The seconds are counted in 32
/// bits: `rounds` is how often that count has begun anew.
pub proof fn law_seconds_left(st: &InstallState, now: u64, r: Option<u32>, gone: int, rounds: int)
    requires
        call_ensures(auto_close, (st, now), r),
        0 <= gone < 0x1_0000_0000,
        0 <= rounds,
    ensures
        r is Some <==> st.auto_close_secs is Some && st.auto_close_start is Some,
        r is Some && now >= st.auto_close_start->0 && (rounds * 0x1_0000_0000 + gone)
            * 1_000_000_000 <= now - st.auto_close_start->0 < (rounds * 0x1_0000_0000 + gone + 1)
            * 1_000_000_000 ==> r->0 == if gone >= st.auto_close_secs->0 {
            0
        } else {
            st.auto_close_secs->0 - gone
        },
        r is Some && now < st.auto_close_start->0 ==> r->0 == st.auto_close_secs->0,
{
    if r is Some && now >= st.auto_close_start->0 {
        let d = now - st.auto_close_start->0;
        let n = rounds * 0x1_0000_0000 + gone;
        if n * 1_000_000_000 <= d < (n + 1) * 1_000_000_000 {
            assert(d / 1_000_000_000 == n);
            assert(n % 0x1_0000_0000 == gone);
        }
    }
}

/// A panel stays open unless its button was clicked or no second is left; that
/// others are left does not close it.
pub proof fn law_open_panels(clicked: bool, left: Option<u32>, r: bool)
    requires
        call_ensures(stays_open, (clicked, left), r),
    ensures
        clicked ==> !r,
        left == Some(0u32) ==> !r,
        !clicked && left is None ==> r,
        !clicked && left is Some && left->0 > 0 ==> r,
{
}

/// Both panels count down in the language that is set.
pub proof fn law_closing_labels(
    strings: &Strings,
    left: u32,
    install: String,
    setup: String,
    text: String,
)
    requires
        call_ensures(install_close_label, (strings, left), install),
        call_ensures(setup_close_label, (strings, left), setup),
        call_ensures(Strings::ia_auto_close, (strings, left), text),
    ensures
        install@ == "·  "@ + text@,
        setup@ == "·  "@ + text@,
{
}

// ── The log panel ─────────────────────────────────────────────────────────────

/// The bar of the log panel tells a setup that runs, one that has ended well and
/// one that has ended with an error apart.
pub proof fn law_log_bars(st: &InstallState, r: (&'static str, Option<Tone>))
    requires
        call_ensures(setup_bar, (st,), r),
    ensures
        !st.done ==> r.0@ == "🐍 setup_venv_lang…"@ && r.1 is None,
        st.done && st.error is None ==> r.0@ == "✅ Terminé"@ && r.1 == Some(Tone::Good),
        st.done && st.error is Some ==> r.0@ == "❌ Erreur"@ && r.1 == Some(Tone::Bad),
{
}

/// An entry of the log is bad news where it holds a warning or an error, even
/// beside a check mark; good news where it holds a check mark; and else neither.
pub proof fn law_tones_of_entries(text: &str, r: Tone, w: bool, e: bool, f: bool, c: bool)
    requires
        call_ensures(entry_tone, (text,), r),
        call_ensures(contains, (text, "⚠"), w),
        call_ensures(contains, (text, "error"), e),
        call_ensures(contains, (text, "Error"), f),
        call_ensures(contains, (text, "✅"), c),
    ensures
        w || e || f ==> r == Tone::Bad,
        !(w || e || f) && c ==> r == Tone::Good,
        !(w || e || f) && !c ==> r == Tone::Dim,
{
}

} // verus!
