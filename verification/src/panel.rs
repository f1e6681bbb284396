//! What the panels show of a setup, and when they close.
use vstd::prelude::*;
use vstd::utf8::{decode_utf8, encode_utf8, is_ascii_chars, is_char_boundary};

use crate::desk::Tone;
use crate::progress::{
    count_done, count_failed, file_models, DownloadFile, FileModel, FileStatus, InstallModel,
    InstallState, StatusModel,
};
use crate::scan::{contains, number};
use crate::strings::{auto_close_text, searching_text, Strings};
use crate::text::{decimal, has_text};

verus! {

// ── The bar ───────────────────────────────────────────────────────────────────

/// What the bar says: how many files are there, how far the setup is in
/// percent, and how many files failed; or that no file was announced yet.
pub open spec fn bar_text(st: InstallModel, strings: Strings, percent: Seq<char>) -> Seq<char> {
    if st.files.len() > 0 {
        decimal(count_done(st.files)) + "/"@ + decimal(st.files.len()) + "  "@ + percent
            + "%   ✅ "@ + decimal(count_done(st.files)) + "  ❌ "@ + decimal(
            count_failed(st.files),
        )
    } else {
        searching_text(strings.lang)
    }
}

/// What the bar says; `percent` is how far the setup is, rounded to a whole
/// number.
pub fn bar_label(state: &InstallState, strings: &Strings, percent: &str) -> (r: String)
    ensures
        r@ == bar_text(state@, *strings, percent@),
{
    let n: usize = state.files.len();
    assert(state@.files.len() == n);
    if n > 0 {
        let done = number(state.done_count() as u64);
        let fails = number(state.fail_count() as u64);
        let all = number(n as u64);
        done.clone().concat("/").concat(all.as_str()).concat("  ").concat(percent).concat(
            "%   ✅ ",
        ).concat(done.as_str()).concat("  ❌ ").concat(fails.as_str())
    } else {
        strings.ia_searching().to_owned()
    }
}

// ── The table ─────────────────────────────────────────────────────────────────

/// A text of more than `max` bytes can be cut at `cut` bytes: no character
/// stands across.
pub open spec fn can_cut(s: Seq<char>, max: int, cut: int) -> bool {
    encode_utf8(s).len() > max ==> is_char_boundary(encode_utf8(s), cut)
}

/// A text of more than `max` bytes, cut at `cut` bytes; any other as it is.
pub open spec fn shortened(s: Seq<char>, max: int, cut: int) -> Seq<char> {
    if encode_utf8(s).len() > max {
        decode_utf8(encode_utf8(s).subrange(0, cut)) + "…"@
    } else {
        s
    }
}

/// The name and the destination of the file can be cut where they have to be.
pub open spec fn can_show(f: FileModel) -> bool {
    can_cut(f.name, 18, 17) && can_cut(f.dest, 12, 11)
}

/// A line of the table of files.
#[derive(Debug)]
pub struct Row {
    pub tone: Tone,
    pub number: String,
    pub name: String,
    pub dest: String,
    pub size: String,
    pub status: String,
}

#[verifier::ext_equal]
pub struct RowModel {
    pub tone: Tone,
    pub number: Seq<char>,
    pub name: Seq<char>,
    pub dest: Seq<char>,
    pub size: Seq<char>,
    pub status: Seq<char>,
}

impl View for Row {
    type V = RowModel;

    open spec fn view(&self) -> RowModel {
        RowModel {
            tone: self.tone,
            number: self.number@,
            name: self.name@,
            dest: self.dest@,
            size: self.size@,
            status: self.status@,
        }
    }
}

/// The mark of a status.
pub open spec fn mark_of(status: StatusModel) -> Seq<char> {
    match status {
        StatusModel::Done { .. } => "✓"@,
        StatusModel::Downloading { .. } => "▶"@,
        StatusModel::Failed(_) => "✗"@,
        StatusModel::Pending => " "@,
    }
}

/// How a status is shown.
pub open spec fn tone_of(status: StatusModel) -> Tone {
    match status {
        StatusModel::Done { .. } => Tone::Good,
        StatusModel::Failed(_) => Tone::Bad,
        StatusModel::Downloading { .. } => Tone::Accent,
        StatusModel::Pending => Tone::Dim,
    }
}

/// The size of a file: what was downloaded once it is there, before that what
/// was announced.
pub open spec fn size_text(f: FileModel) -> Seq<char> {
    match f.status {
        StatusModel::Done { mib, secs } => mib.rounded + " MiB"@,
        _ => match f.size_mib {
            Some(m) => m.tenths + " MiB"@,
            None => "-"@,
        },
    }
}

/// A status in words.
pub open spec fn status_text(status: StatusModel) -> Seq<char> {
    match status {
        StatusModel::Pending => "⏳"@,
        StatusModel::Downloading { percent } => "⬇ "@ + percent.rounded + "%"@,
        StatusModel::Done { mib, secs } => "✅ "@ + decimal(secs as nat) + "s"@,
        StatusModel::Failed(message) => "❌ "@ + message,
    }
}

/// The line of the file at `idx`.
pub open spec fn row_of(idx: int, f: FileModel) -> RowModel {
    RowModel {
        tone: tone_of(f.status),
        number: mark_of(f.status) + decimal((idx + 1) as nat),
        name: shortened(f.name, 18, 17),
        dest: shortened(f.dest, 12, 11),
        size: size_text(f),
        status: status_text(f.status),
    }
}

/// Whether a text of more than `max` bytes can be cut at `cut` bytes.
fn cuttable(s: &str, max: usize, cut: usize) -> (r: bool)
    ensures
        r == can_cut(s@, max as int, cut as int),
{
    let bytes: &[u8] = s.as_bytes();
    bytes.len() <= max || s.is_char_boundary(cut)
}

/// A text of more than `max` bytes, cut at `cut` bytes; any other as it is.
pub fn shorten(s: &str, max: usize, cut: usize) -> (r: String)
    requires
        can_cut(s@, max as int, cut as int),
    ensures
        r@ == shortened(s@, max as int, cut as int),
{
    let bytes: &[u8] = s.as_bytes();
    if bytes.len() > max {
        let (head, _) = s.split_at(cut);
        proof {
            vstd::utf8::encode_utf8_decode_utf8(head@);
        }
        head.to_owned().concat("…")
    } else {
        s.to_owned()
    }
}

/// Whether a file can be shown: its name and its destination can be cut where
/// they have to be.
pub fn row_fits(f: &DownloadFile) -> (r: bool)
    ensures
        r == can_show(f@),
{
    cuttable(f.name.as_str(), 18, 17) && cuttable(f.dest.as_str(), 12, 11)
}

/// The line of the file at `idx`.
pub fn file_row(idx: usize, f: &DownloadFile) -> (r: Row)
    requires
        can_show(f@),
        idx < usize::MAX,
    ensures
        r@ == row_of(idx as int, f@),
{
    let (mark, tone, status): (&str, Tone, String) = match &f.status {
        FileStatus::Pending => (" ", Tone::Dim, "⏳".to_owned()),
        FileStatus::Downloading { percent } => (
            "▶",
            Tone::Accent,
            "⬇ ".to_owned().concat(percent.rounded.as_str()).concat("%"),
        ),
        FileStatus::Done { mib: _, secs } => {
            let secs_text = number(*secs as u64);
            ("✓", Tone::Good, "✅ ".to_owned().concat(secs_text.as_str()).concat("s"))
        },
        FileStatus::Failed(message) => (
            "✗",
            Tone::Bad,
            "❌ ".to_owned().concat(message.as_str()),
        ),
    };
    let size: String = match &f.status {
        FileStatus::Done { mib, secs: _ } => mib.rounded.clone().concat(" MiB"),
        _ => match &f.size_mib {
            Some(m) => m.tenths.clone().concat(" MiB"),
            None => "-".to_owned(),
        },
    };
    let place = number((idx + 1) as u64);
    Row {
        tone,
        number: mark.to_owned().concat(place.as_str()),
        name: shorten(f.name.as_str(), 18, 17),
        dest: shorten(f.dest.as_str(), 12, 11),
        size,
        status,
    }
}

/// The lines of all the files, in their order.
pub fn file_rows(state: &InstallState) -> (r: Vec<Row>)
    requires
        forall|i: int| 0 <= i < state@.files.len() ==> can_show(#[trigger] state@.files[i]),
    ensures
        r@.len() == state@.files.len(),
        forall|i: int| 0 <= i < r@.len() ==> (#[trigger] r@[i])@ == row_of(i, state@.files[i]),
{
    let ghost all = state@.files;
    let mut rows: Vec<Row> = Vec::new();
    let mut i: usize = 0;
    while i < state.files.len()
        invariant
            all == file_models(state.files@),
            i <= state.files@.len(),
            rows@.len() == i,
            forall|j: int| 0 <= j < all.len() ==> can_show(#[trigger] all[j]),
            forall|j: int| 0 <= j < i ==> (#[trigger] rows@[j])@ == row_of(j, all[j]),
        decreases state.files@.len() - i,
    {
        assert(all[i as int] == state.files@[i as int]@);
        let row = file_row(i, &state.files[i]);
        rows.push(row);
        i += 1;
    }
    rows
}

/// A name in ASCII can be shown whatever its length, and is cut to its first
/// seventeen characters where it has more than eighteen.
pub proof fn law_ascii_names_are_cut(s: Seq<char>)
    requires
        is_ascii_chars(s),
    ensures
        can_cut(s, 18, 17),
        shortened(s, 18, 17) == if s.len() > 18 {
            s.take(17) + "…"@
        } else {
            s
        },
{
    lemma_ascii_cut(s, 18, 17);
}

/// A destination in ASCII likewise, to eleven characters out of more than
/// twelve.
pub proof fn law_ascii_destinations_are_cut(s: Seq<char>)
    requires
        is_ascii_chars(s),
    ensures
        can_cut(s, 12, 11),
        shortened(s, 12, 11) == if s.len() > 12 {
            s.take(11) + "…"@
        } else {
            s
        },
{
    lemma_ascii_cut(s, 12, 11);
}

proof fn lemma_ascii_cut(s: Seq<char>, max: int, cut: int)
    requires
        is_ascii_chars(s),
        0 < cut <= max,
    ensures
        can_cut(s, max, cut),
        shortened(s, max, cut) == if s.len() > max {
            s.take(cut) + "…"@
        } else {
            s
        },
{
    vstd::utf8::is_ascii_chars_encode_utf8(s);
    if s.len() > max {
        let bytes = encode_utf8(s);
        let head = s.take(cut);
        vstd::utf8::is_ascii_chars_concat(s, head, s.skip(cut));
        vstd::utf8::is_ascii_chars_encode_utf8(head);
        assert(encode_utf8(head) =~= bytes.subrange(0, cut));
        vstd::utf8::encode_utf8_decode_utf8(head);
        vstd::utf8::encode_utf8_valid_utf8(s);
        vstd::utf8::is_char_boundary_iff_is_leading_byte(bytes, cut);
    }
}

// ── Closing ───────────────────────────────────────────────────────────────────

/// The whole seconds from one time to another, both in nanoseconds, as far as
/// 32 bits tell them.
pub open spec fn elapsed_secs(start: u64, now: u64) -> int {
    (if now >= start {
        (now - start) / 1_000_000_000
    } else {
        0
    }) % 0x1_0000_0000
}

/// The seconds that are left of `delay`.
pub open spec fn secs_left(delay: u32, start: u64, now: u64) -> int {
    if elapsed_secs(start, now) >= delay {
        0
    } else {
        delay - elapsed_secs(start, now)
    }
}

/// The seconds before the panel closes by itself, if it is to.
pub open spec fn closes_in(st: InstallModel, now: u64) -> Option<int> {
    match (st.auto_close_secs, st.auto_close_start) {
        (Some(delay), Some(start)) => Some(secs_left(delay, start, now)),
        _ => None,
    }
}

/// The seconds before the panel closes by itself, if it is to.
pub fn auto_close(state: &InstallState, now: u64) -> (r: Option<u32>)
    ensures
        match closes_in(state@, now) {
            Some(n) => r matches Some(left) && left == n,
            None => r is None,
        },
{
    match (state.auto_close_secs, state.auto_close_start) {
        (Some(delay), Some(start)) => {
            let nanos: u64 = if now >= start {
                now - start
            } else {
                0
            };
            let elapsed: u64 = (nanos / 1_000_000_000) % 0x1_0000_0000;
            if elapsed >= delay as u64 {
                Some(0)
            } else {
                Some(delay - elapsed as u32)
            }
        },
        _ => None,
    }
}

/// Whether a panel stays open: unless its button was clicked, or no second is
/// left.
pub fn stays_open(clicked: bool, left: Option<u32>) -> (r: bool)
    ensures
        r == (!clicked && left != Some(0u32)),
{
    match left {
        Some(0) => false,
        _ => !clicked,
    }
}

/// What the panel of the assistant says of its closing.
pub fn install_close_label(strings: &Strings, left: u32) -> (r: String)
    ensures
        r@ == "·  "@ + auto_close_text(strings.lang, left as nat),
{
    let text = strings.ia_auto_close(left);
    "·  ".to_owned().concat(text.as_str())
}

/// What the log panel says of its closing.
pub fn setup_close_label(strings: &Strings, left: u32) -> (r: String)
    ensures
        r@ == "·  "@ + auto_close_text(strings.lang, left as nat),
{
    let text = strings.ia_auto_close(left);
    "·  ".to_owned().concat(text.as_str())
}

/// A panel that is to close does so when its seconds are over, and not before:
/// for as long as 32 bits count the seconds.
pub proof fn law_closes_in_time(delay: u32, start: u64, now: u64)
    requires
        start <= now,
        (now - start) / 1_000_000_000 < 0x1_0000_0000,
    ensures
        secs_left(delay, start, now) == 0 <==> now - start >= delay * 1_000_000_000,
        secs_left(delay, start, now) <= delay,
{
}

/// The seconds that are left only become fewer.
pub proof fn law_seconds_run_down(delay: u32, start: u64, now: u64, later: u64)
    requires
        start <= now <= later,
        (later - start) / 1_000_000_000 < 0x1_0000_0000,
    ensures
        secs_left(delay, start, later) <= secs_left(delay, start, now),
{
}

// ── The log panel ─────────────────────────────────────────────────────────────

/// What the bar of the log panel says, and how it is shown once the setup is
/// done.
pub fn setup_bar(state: &InstallState) -> (r: (&'static str, Option<Tone>))
    ensures
        !state@.done ==> r.0@ == "🐍 setup_venv_lang…"@ && r.1 is None,
        state@.done && state@.error is None ==> r.0@ == "✅ Terminé"@ && r.1 == Some(Tone::Good),
        state@.done && state@.error is Some ==> r.0@ == "❌ Erreur"@ && r.1 == Some(Tone::Bad),
{
    if !state.done {
        ("🐍 setup_venv_lang…", None)
    } else if state.error.is_none() {
        ("✅ Terminé", Some(Tone::Good))
    } else {
        ("❌ Erreur", Some(Tone::Bad))
    }
}

/// How an entry of the log is shown.
pub open spec fn tone_of_entry(entry: Seq<char>) -> Tone {
    if has_text(entry, "⚠"@) || has_text(entry, "error"@) || has_text(entry, "Error"@) {
        Tone::Bad
    } else if has_text(entry, "✅"@) {
        Tone::Good
    } else {
        Tone::Dim
    }
}

/// How an entry of the log is shown.
pub fn entry_tone(entry: &str) -> (r: Tone)
    ensures
        r == tone_of_entry(entry@),
{
    if contains(entry, "⚠") || contains(entry, "error") || contains(entry, "Error") {
        Tone::Bad
    } else if contains(entry, "✅") {
        Tone::Good
    } else {
        Tone::Dim
    }
}

} // verus!
